//! Vulkan compute-based motion-compensated frame interpolation.
//!
//! Approximates AMD FSR 2 approach: block-matching motion estimation
//! followed by motion-compensated warp and blend, in compute shaders.

use vstd::prelude::*;

use crate::interpolate::backends::common;
use crate::interpolate::backends::common::{GpuWork, PassLayout, WorkView};
use crate::interpolate::blend;
use crate::interpolate::error::InterpolateError;
use crate::interpolate::frame::{FrameView, GpuFrame};
use crate::vulkan::flow;
use crate::vulkan::flow::{Content, Machine};
use crate::vulkan::memory;
use crate::vulkan::memory::MemoryKind;
use crate::vulkan::program;
use crate::vulkan::program::{
    Binding, BufferRequest, Layout, PassConstants, Plan, PlanView, PushConstants, Step,
};

verus! {

/// Pixels on each side of a block.
pub const BLOCK_SIZE: u32 = 8;

/// How far motion is searched for.
pub const SEARCH_RADIUS: u32 = 8;

/// Threads on each side of a workgroup.
pub const WORKGROUP: u32 = 16;

pub const FRAME_A: usize = 0;

pub const FRAME_B: usize = 1;

pub const MOTION: usize = 2;

pub const OUTPUT: usize = 3;

pub const STAGING_A: usize = 4;

pub const STAGING_B: usize = 5;

pub const READBACK: usize = 6;

/// Motion estimation.
pub const MOTION_PASS: usize = 0;

/// Warp and blend.
pub const WARP_PASS: usize = 1;

/// Storage buffer descriptors in the pool.
pub const POOL_DESCRIPTORS: u32 = 16;

/// Descriptor sets in the pool.
pub const POOL_SETS: u32 = 4;

/// Motion estimation: frame_a(0), frame_b(1), motion(2).
/// Warp blend: frame_a(0), frame_b(1), motion(2), output(3).
pub open spec fn spec_pass_layouts() -> Seq<PassLayout> {
    seq![
        PassLayout { bindings: 3, constant_bytes: 20 },
        PassLayout { bindings: 4, constant_bytes: 20 },
    ]
}

/// The layouts of the two passes: motion estimation, then warp and blend.
#[must_use]
pub fn pass_layouts() -> (r: Vec<PassLayout>)
    ensures
        r@ == spec_pass_layouts(),
{
    let mut r: Vec<PassLayout> = Vec::new();
    r.push(PassLayout { bindings: 3, constant_bytes: 20 });
    r.push(PassLayout { bindings: 4, constant_bytes: 20 });
    assert(r@ =~= spec_pass_layouts());
    r
}

/// Bytes of a frame.
pub open spec fn frame_bytes(width: u32, height: u32) -> int {
    width * height * 4
}

/// Bytes of the motion vectors: two 32-bit numbers per block.
pub open spec fn motion_bytes(width: u32, height: u32, block_size: u32) -> int {
    program::groups_of(width as int, block_size as int) * program::groups_of(
        height as int,
        block_size as int,
    ) * 8
}

/// Whether the byte sizes can be represented.
pub open spec fn sizes_fit(width: u32, height: u32, block_size: u32) -> bool {
    &&& block_size > 0
    &&& frame_bytes(width, height) <= u32::MAX
    &&& motion_bytes(width, height, block_size) <= u32::MAX
}

/// A buffer on the device, for shaders.
pub open spec fn device_buffer_of(size: int, transfer_src: bool, transfer_dst: bool) -> BufferRequest {
    BufferRequest {
        size: size as u64,
        storage: true,
        transfer_src,
        transfer_dst,
        memory: MemoryKind::DeviceOrHost,
    }
}

/// A buffer that the CPU writes or reads.
pub open spec fn staging_buffer_of(size: int) -> BufferRequest {
    BufferRequest {
        size: size as u64,
        storage: false,
        transfer_src: true,
        transfer_dst: true,
        memory: MemoryKind::Host,
    }
}

/// A buffer on the device, for shaders.
#[must_use]
pub fn device_buffer(size: u64, transfer_src: bool, transfer_dst: bool) -> (r: BufferRequest)
    ensures
        r == device_buffer_of(size as int, transfer_src, transfer_dst),
{
    BufferRequest {
        size,
        storage: true,
        transfer_src,
        transfer_dst,
        memory: MemoryKind::DeviceOrHost,
    }
}

/// A buffer that the CPU writes or reads.
#[must_use]
pub fn staging_buffer(size: u64) -> (r: BufferRequest)
    ensures
        r == staging_buffer_of(size as int),
{
    BufferRequest {
        size,
        storage: false,
        transfer_src: true,
        transfer_dst: true,
        memory: MemoryKind::Host,
    }
}

/// The resources for frames of a size.
pub open spec fn spec_plan(width: u32, height: u32, block_size: u32) -> PlanView {
    let frame = frame_bytes(width, height);
    let motion = motion_bytes(width, height, block_size);
    PlanView {
        buffers: seq![
            device_buffer_of(frame, false, true),
            device_buffer_of(frame, false, true),
            device_buffer_of(motion, false, false),
            device_buffer_of(frame, true, false),
            staging_buffer_of(frame),
            staging_buffer_of(frame),
            staging_buffer_of(frame),
        ],
        images: seq![],
        bindings: seq![
            Binding { pass: MOTION_PASS, binding: 0, buffer: FRAME_A },
            Binding { pass: MOTION_PASS, binding: 1, buffer: FRAME_B },
            Binding { pass: MOTION_PASS, binding: 2, buffer: MOTION },
            Binding { pass: WARP_PASS, binding: 0, buffer: FRAME_A },
            Binding { pass: WARP_PASS, binding: 1, buffer: FRAME_B },
            Binding { pass: WARP_PASS, binding: 2, buffer: MOTION },
            Binding { pass: WARP_PASS, binding: 3, buffer: OUTPUT },
        ],
    }
}

/// The commands for frames of a size: upload both frames, estimate the motion,
/// warp and blend, read back.
pub open spec fn spec_program(
    width: u32,
    height: u32,
    t: u32,
    block_size: u32,
    search_radius: u32,
) -> Seq<Step> {
    let frame = frame_bytes(width, height) as u64;
    let constants = PassConstants::Warp(
        PushConstants { width, height, t, block_size, search_radius },
    );
    seq![
        Step::CopyBuffer { src: STAGING_A, dst: FRAME_A, size: frame },
        Step::CopyBuffer { src: STAGING_B, dst: FRAME_B, size: frame },
        program::copies_before_shaders_of(),
        Step::Dispatch {
            pass: MOTION_PASS,
            constants,
            x: program::groups_of(
                program::groups_of(width as int, block_size as int),
                WORKGROUP as int,
            ) as u32,
            y: program::groups_of(
                program::groups_of(height as int, block_size as int),
                WORKGROUP as int,
            ) as u32,
            z: 1,
        },
        program::shaders_before_shaders_of(),
        Step::Dispatch {
            pass: WARP_PASS,
            constants,
            x: program::groups_of(width as int, WORKGROUP as int) as u32,
            y: program::groups_of(height as int, WORKGROUP as int) as u32,
            z: 1,
        },
        program::shaders_before_copies_of(),
        Step::CopyBuffer { src: OUTPUT, dst: READBACK, size: frame },
    ]
}

/// The resources for frames of a size.
#[must_use]
pub fn plan(width: u32, height: u32, block_size: u32) -> (r: Plan)
    requires
        sizes_fit(width, height, block_size),
    ensures
        r@ == spec_plan(width, height, block_size),
{
    let frame: u64 = frame_size(width, height);
    let blocks_x: u32 = program::groups(width, block_size);
    let blocks_y: u32 = program::groups(height, block_size);
    assert(0 <= blocks_x * blocks_y <= blocks_x * blocks_y * 8) by (nonlinear_arith)
        requires
            blocks_x >= 0,
            blocks_y >= 0,
    ;
    let motion: u64 = (blocks_x * blocks_y * 8) as u64;
    let mut buffers: Vec<BufferRequest> = Vec::new();
    buffers.push(device_buffer(frame, false, true));
    buffers.push(device_buffer(frame, false, true));
    buffers.push(device_buffer(motion, false, false));
    buffers.push(device_buffer(frame, true, false));
    buffers.push(staging_buffer(frame));
    buffers.push(staging_buffer(frame));
    buffers.push(staging_buffer(frame));
    let mut bindings: Vec<Binding> = Vec::new();
    bindings.push(Binding { pass: MOTION_PASS, binding: 0, buffer: FRAME_A });
    bindings.push(Binding { pass: MOTION_PASS, binding: 1, buffer: FRAME_B });
    bindings.push(Binding { pass: MOTION_PASS, binding: 2, buffer: MOTION });
    bindings.push(Binding { pass: WARP_PASS, binding: 0, buffer: FRAME_A });
    bindings.push(Binding { pass: WARP_PASS, binding: 1, buffer: FRAME_B });
    bindings.push(Binding { pass: WARP_PASS, binding: 2, buffer: MOTION });
    bindings.push(Binding { pass: WARP_PASS, binding: 3, buffer: OUTPUT });
    let r = Plan { buffers, images: Vec::new(), bindings };
    assert(r@ =~= spec_plan(width, height, block_size));
    r
}

/// Bytes of a frame.
#[must_use]
pub fn frame_size(width: u32, height: u32) -> (r: u64)
    requires
        frame_bytes(width, height) <= u32::MAX,
    ensures
        r == frame_bytes(width, height),
{
    assert(0 <= width * height <= width * height * 4) by (nonlinear_arith)
        requires
            width >= 0,
            height >= 0,
    ;
    (width * height * 4) as u64
}

/// The commands for frames of a size.
#[must_use]
pub fn program_for(
    width: u32,
    height: u32,
    t: u32,
    block_size: u32,
    search_radius: u32,
) -> (r: Vec<Step>)
    requires
        sizes_fit(width, height, block_size),
    ensures
        r@ == spec_program(width, height, t, block_size, search_radius),
{
    let frame: u64 = frame_size(width, height);
    let constants = PassConstants::Warp(
        PushConstants { width, height, t, block_size, search_radius },
    );
    let blocks_x: u32 = program::groups(width, block_size);
    let blocks_y: u32 = program::groups(height, block_size);
    let mut r: Vec<Step> = Vec::new();
    r.push(Step::CopyBuffer { src: STAGING_A, dst: FRAME_A, size: frame });
    r.push(Step::CopyBuffer { src: STAGING_B, dst: FRAME_B, size: frame });
    r.push(program::copies_before_shaders());
    r.push(
        Step::Dispatch {
            pass: MOTION_PASS,
            constants,
            x: program::groups(blocks_x, WORKGROUP),
            y: program::groups(blocks_y, WORKGROUP),
            z: 1,
        },
    );
    r.push(program::shaders_before_shaders());
    r.push(
        Step::Dispatch {
            pass: WARP_PASS,
            constants,
            x: program::groups(width, WORKGROUP),
            y: program::groups(height, WORKGROUP),
            z: 1,
        },
    );
    r.push(program::shaders_before_copies());
    r.push(Step::CopyBuffer { src: OUTPUT, dst: READBACK, size: frame });
    assert(r@ =~= spec_program(width, height, t, block_size, search_radius));
    r
}

/// Vulkan compute-based motion-compensated frame interpolation.
#[derive(Debug)]
pub struct Fsr2Interpolator {
    block_size: u32,
    search_radius: u32,
    /// Dimensions that resources exist for.
    cached: Option<(u32, u32)>,
}

impl Fsr2Interpolator {
    /// Pixels on each side of a block.
    pub closed spec fn spec_block_size(self) -> u32 {
        self.block_size
    }

    /// How far motion is searched for.
    pub closed spec fn spec_search_radius(self) -> u32 {
        self.search_radius
    }

    /// Dimensions that resources exist for.
    pub closed spec fn spec_cached(self) -> Option<(u32, u32)> {
        self.cached
    }

    /// The work for two frames.
    pub open spec fn spec_work(self, a: FrameView, b: FrameView, t: u32) -> WorkView {
        let width = a.width;
        let height = a.height;
        WorkView {
            cache: common::cache_action_for(self.spec_cached(), width, height),
            plan: spec_plan(width, height, self.spec_block_size()),
            uploads: common::frame_uploads_of(STAGING_A, a, STAGING_B, b),
            program: spec_program(
                width,
                height,
                t,
                self.spec_block_size(),
                self.spec_search_radius(),
            ),
            read_size: frame_bytes(width, height) as u64,
        }
    }

    /// Create a new FSR2-style Vulkan compute interpolator.
    #[must_use]
    pub fn new() -> (r: Fsr2Interpolator)
        ensures
            r.spec_block_size() == BLOCK_SIZE,
            r.spec_search_radius() == SEARCH_RADIUS,
            r.spec_cached() is None,
    {
        Fsr2Interpolator::with_params(BLOCK_SIZE, SEARCH_RADIUS)
    }

    /// Create with custom block size and search radius.
    #[must_use]
    pub fn with_params(block_size: u32, search_radius: u32) -> (r: Fsr2Interpolator)
        ensures
            r.spec_block_size() == block_size,
            r.spec_search_radius() == search_radius,
            r.spec_cached() is None,
    {
        Fsr2Interpolator { block_size, search_radius, cached: None }
    }

    /// The work to interpolate between two frames.
    ///
    /// # Errors
    ///
    /// The factor is out of range, or the frames differ in their dimensions.
    pub fn begin<'a>(&self, a: &'a GpuFrame, b: &'a GpuFrame, t: u32) -> (r: Result<
        GpuWork<'a>,
        InterpolateError,
    >)
        requires
            common::refusal(a@, b@, t) is None ==> sizes_fit(
                a.width,
                a.height,
                self.spec_block_size(),
            ),
        ensures
            match common::refusal(a@, b@, t) {
                Some(e) => r == Err::<GpuWork, _>(e),
                None => r matches Ok(work) && work@ == self.spec_work(a@, b@, t),
            },
    {
        match common::check_request(a, b, t) {
            Ok(_) => {},
            Err(e) => {
                return Err(e);
            },
        }
        let work = GpuWork {
            cache: common::cache_action(self.cached, a.width, a.height),
            plan: plan(a.width, a.height, self.block_size),
            uploads: common::frame_uploads(STAGING_A, a, STAGING_B, b),
            program: program_for(a.width, a.height, t, self.block_size, self.search_radius),
            read_size: frame_size(a.width, a.height),
        };
        assert(work@ =~= self.spec_work(a@, b@, t));
        Ok(work)
    }

    /// Note that resources exist for these dimensions, or that none exist.
    pub fn set_cached(&mut self, dimensions: Option<(u32, u32)>)
        ensures
            final(self).spec_cached() == dimensions,
            final(self).spec_block_size() == old(self).spec_block_size(),
            final(self).spec_search_radius() == old(self).spec_search_radius(),
    {
        self.cached = dimensions;
    }

    /// The frame made of pixels that the GPU handed back.
    pub fn finish(a: &GpuFrame, b: &GpuFrame, t: u32, data: Vec<u8>) -> (r: GpuFrame)
        requires
            common::refusal(a@, b@, t) is None,
            blend::timestamp_fits(a@, b@, t),
        ensures
            r@ == common::frame_of(a@, b@, t, data@),
    {
        common::finished_frame(a, b, t, data)
    }

    /// Estimated latency in milliseconds: 5.0, as IEEE 754 single-precision bits.
    #[must_use]
    pub fn latency_ms(&self) -> (r: u32)
        ensures
            r == 0x40a0_0000,
    {
        0x40a0_0000
    }

    /// Human-readable name of this backend.
    #[must_use]
    pub fn name(&self) -> (r: &'static str)
        ensures
            r@ == "fsr2"@,
    {
        "fsr2"
    }
}

/// The commands are sound on the resources.
pub proof fn law_program_is_sound(
    width: u32,
    height: u32,
    t: u32,
    block_size: u32,
    search_radius: u32,
)
    requires
        sizes_fit(width, height, block_size),
    ensures
        program::sound(
            spec_plan(width, height, block_size),
            program::all_in(spec_plan(width, height, block_size), Layout::Undefined),
            spec_program(width, height, t, block_size, search_radius),
        ),
{
    reveal(program::sound);
    assert(0 <= width * height * 4) by (nonlinear_arith)
        requires
            width >= 0,
            height >= 0,
    ;
}

/// Every block gets a thread of the motion pass, and every pixel one of the warp
/// pass.
pub proof fn law_grids_cover_the_frame(width: u32, height: u32, block_size: u32)
    requires
        block_size > 0,
    ensures
        ({
            let blocks = program::groups_of(width as int, block_size as int);
            &&& program::groups_of(blocks, WORKGROUP as int) * WORKGROUP >= blocks
            &&& blocks * block_size >= width
        }),
        program::groups_of(width as int, WORKGROUP as int) * WORKGROUP >= width,
        program::groups_of(height as int, WORKGROUP as int) * WORKGROUP >= height,
{
    program::law_groups_cover_all(width as int, block_size as int);
    program::law_groups_cover_all(
        program::groups_of(width as int, block_size as int),
        WORKGROUP as int,
    );
    program::law_groups_cover_all(width as int, WORKGROUP as int);
    program::law_groups_cover_all(height as int, WORKGROUP as int);
}

/// The descriptor pool has room for the sets of both passes.
pub proof fn law_pool_is_large_enough(width: u32, height: u32, block_size: u32)
    ensures
        spec_pass_layouts().len() <= POOL_SETS,
        spec_pass_layouts()[0].bindings + spec_pass_layouts()[1].bindings <= POOL_DESCRIPTORS,
        spec_plan(width, height, block_size).bindings.len() == spec_pass_layouts()[0].bindings
            + spec_pass_layouts()[1].bindings,
{
}

/// The frames are written to two different buffers, in memory that the CPU can
/// write.
pub proof fn law_uploads_reach_host_memory(
    width: u32,
    height: u32,
    block_size: u32,
    a: FrameView,
    b: FrameView,
)
    ensures
        ({
            let uploads = common::frame_uploads_of(STAGING_A, a, STAGING_B, b);
            let buffers = spec_plan(width, height, block_size).buffers;
            &&& uploads[0].buffer != uploads[1].buffer
            &&& buffers[uploads[0].buffer as int].memory == MemoryKind::Host
            &&& buffers[uploads[1].buffer as int].memory == MemoryKind::Host
        }),
{
}

/// The frame made of the bytes that were asked for is complete, whatever sizes
/// earlier calls had: it has the size of the two frames, and four bytes for each
/// of its pixels.
pub proof fn law_finished_frame_is_complete(
    interpolator: Fsr2Interpolator,
    a: FrameView,
    b: FrameView,
    t: u32,
    data: Seq<u8>,
)
    requires
        common::refusal(a, b, t) is None,
        sizes_fit(a.width, a.height, interpolator.spec_block_size()),
        data.len() == interpolator.spec_work(a, b, t).read_size,
    ensures
        ({
            let f = common::frame_of(a, b, t, data);
            &&& f.width == a.width
            &&& f.height == a.height
            &&& f.stride == a.stride
            &&& f.data.len() == f.width * f.height * 4
        }),
{
    assert(0 <= a.width * a.height * 4) by (nonlinear_arith)
        requires
            a.width >= 0,
            a.height >= 0,
    ;
}

/// What runs the commands.
pub open spec fn machine(width: u32, height: u32, block_size: u32) -> Machine {
    Machine {
        plan: spec_plan(width, height, block_size),
        pass_buffers: seq![3nat, 4nat],
        discards: true,
        overlaps: true,
    }
}

proof fn lemma_bindings(width: u32, height: u32, block_size: u32)
    ensures
        ({
            let m = machine(width, height, block_size);
            &&& m.bound(MOTION_PASS, 0) == FRAME_A
            &&& m.bound(MOTION_PASS, 1) == FRAME_B
            &&& m.bound(MOTION_PASS, 2) == MOTION
            &&& m.bound(WARP_PASS, 0) == FRAME_A
            &&& m.bound(WARP_PASS, 1) == FRAME_B
            &&& m.bound(WARP_PASS, 2) == MOTION
            &&& m.bound(WARP_PASS, 3) == OUTPUT
        }),
{
    let m = machine(width, height, block_size);
    flow::lemma_bound(m, MOTION_PASS, 0, 0);
    flow::lemma_bound(m, MOTION_PASS, 1, 1);
    flow::lemma_bound(m, MOTION_PASS, 2, 2);
    flow::lemma_bound(m, WARP_PASS, 0, 3);
    flow::lemma_bound(m, WARP_PASS, 1, 4);
    flow::lemma_bound(m, WARP_PASS, 2, 5);
    flow::lemma_bound(m, WARP_PASS, 3, 6);
}

/// Two tightly packed frames reach the shaders, and what the shaders make of them reaches
/// the CPU. Whenever a pass is dispatched, its first buffer holds the pixels of the
/// first frame and its second those of the second, and its constants carry the
/// size of the frames, the factor and the parameters of the search. The warp pass
/// also finds what the motion pass made of the two frames. What is read back is
/// what the warp pass made.
pub proof fn law_frames_reach_the_shaders(
    interpolator: Fsr2Interpolator,
    a: FrameView,
    b: FrameView,
    t: u32,
    n: int,
)
    requires
        common::refusal(a, b, t) is None,
        sizes_fit(a.width, a.height, interpolator.spec_block_size()),
        a.data.len() == a.width * a.height * 4,
        b.data.len() == b.width * b.height * 4,
    ensures
        ({
            let work = interpolator.spec_work(a, b, t);
            let m = Machine {
                plan: work.plan,
                pass_buffers: seq![3nat, 4nat],
                discards: true,
                overlaps: true,
            };
            let start = common::contents_after_uploads(m, m.blank(), work.uploads);
            let constants = PassConstants::Warp(
                PushConstants {
                    width: a.width,
                    height: a.height,
                    t,
                    block_size: interpolator.spec_block_size(),
                    search_radius: interpolator.spec_search_radius(),
                },
            );
            let first = Content::Written(a.data);
            let second = Content::Written(b.data);
            let motion = Content::Shaded {
                pass: MOTION_PASS,
                constants,
                inputs: seq![first, second],
            };
            &&& 0 <= n < work.program.len() && work.program[n] is Dispatch ==> {
                let pass = work.program[n]->pass;
                let now = m.after(start, work.program, n);
                &&& work.program[n]->constants == constants
                &&& pass == MOTION_PASS || pass == WARP_PASS
                &&& m.input(now, pass, 0) == first
                &&& m.input(now, pass, 1) == second
                &&& pass == WARP_PASS ==> m.input(now, pass, 2) == motion
            }
            &&& m.done(start, work.program).buffers[READBACK as int].content
                == (Content::Shaded {
                pass: WARP_PASS,
                constants,
                inputs: seq![first, second, motion],
            })
            &&& work.read_size == work.plan.buffers[READBACK as int].size
        }),
{
    let work = interpolator.spec_work(a, b, t);
    let block_size = interpolator.spec_block_size();
    let m = machine(a.width, a.height, block_size);
    let steps = work.program;
    let frame = frame_bytes(a.width, a.height);
    assert(0 <= a.width * a.height * 4) by (nonlinear_arith)
        requires
            a.width >= 0,
            a.height >= 0,
    ;
    lemma_bindings(a.width, a.height, block_size);
    let first = Content::Written(a.data);
    let second = Content::Written(b.data);
    let constants = steps[3]->constants;
    let start = common::contents_after_uploads(m, m.blank(), work.uploads);
    common::law_both_frames_are_uploaded(m, m.blank(), STAGING_A, a, STAGING_B, b, 0);
    let m1 = m.after(start, steps, 1);
    assert(m1 == m.after_step(m.after(start, steps, 0), steps[0]));
    assert(m1.buffers[FRAME_A as int].content == first);
    let m2 = m.after(start, steps, 2);
    assert(m2.buffers[FRAME_B as int].content == second);
    let m3 = m.after(start, steps, 3);
    assert(m.inputs(m3, MOTION_PASS) =~= seq![first, second]);
    let m4 = m.after(start, steps, 4);
    let motion = m4.buffers[MOTION as int].content;
    let m5 = m.after(start, steps, 5);
    assert(m.inputs(m5, WARP_PASS) =~= seq![first, second, motion]);
    let m6 = m.after(start, steps, 6);
    let m7 = m.after(start, steps, 7);
    let m8 = m.after(start, steps, 8);
    assert(m8.buffers[READBACK as int].content == m6.buffers[OUTPUT as int].content);
}

/// The grids of the work take in the frame and no more: every block has a thread
/// of the motion pass, every pixel one of the warp pass, and no workgroup is
/// without one.
pub proof fn law_dispatches_cover_the_frame(
    interpolator: Fsr2Interpolator,
    a: FrameView,
    b: FrameView,
    t: u32,
    n: int,
)
    requires
        sizes_fit(a.width, a.height, interpolator.spec_block_size()),
        0 <= n < interpolator.spec_work(a, b, t).program.len(),
        interpolator.spec_work(a, b, t).program[n] is Dispatch,
    ensures
        ({
            let step = interpolator.spec_work(a, b, t).program[n];
            let side = if step->pass == MOTION_PASS {
                16 * interpolator.spec_block_size() as int
            } else {
                16
            };
            &&& step->Dispatch_x * side >= a.width
            &&& step->Dispatch_y * side >= a.height
            &&& step->Dispatch_x > 0 ==> (step->Dispatch_x - 1) * side < a.width
            &&& step->Dispatch_y > 0 ==> (step->Dispatch_y - 1) * side < a.height
            &&& step->z == 1
        }),
{
    let size = interpolator.spec_block_size() as int;
    lemma_grid(a.width, size);
    lemma_grid(a.height, size);
}

proof fn lemma_grid(n: u32, size: int)
    requires
        size > 0,
    ensures
        ({
            let x = program::groups_of(program::groups_of(n as int, size), 16);
            let y = program::groups_of(n as int, 16);
            &&& 0 <= x <= u32::MAX
            &&& 0 <= y <= u32::MAX
            &&& x * (16 * size) >= n
            &&& x > 0 ==> (x - 1) * (16 * size) < n
            &&& y * 16 >= n
            &&& y > 0 ==> (y - 1) * 16 < n
        }),
{
    let g = program::groups_of(n as int, size);
    let x = program::groups_of(g, 16);
    program::law_groups_cover_all(n as int, size);
    program::law_groups_cover_all(g, 16);
    program::law_groups_cover_all(n as int, 16);
    assert(x * (16 * size) >= n) by (nonlinear_arith)
        requires
            x * 16 >= g,
            g * size >= n,
            size > 0,
    ;
    assert(x > 0 ==> (x - 1) * (16 * size) < n) by (nonlinear_arith)
        requires
            x == 0 || (x - 1) * 16 < g,
            g == 0 || (g - 1) * size < n,
            x >= 0,
            g >= 0,
            size > 0,
            n >= 0,
    ;
    assert(g <= n) by (nonlinear_arith)
        requires
            g == 0 || (g - 1) * size < n,
            size > 0,
            g >= 0,
            n >= 0,
    ;
}

/// The layout of a pass has as many buffers as are bound to it, with the numbers from 0,
/// and as many bytes of constants as it is dispatched with.
pub proof fn law_layouts_fit_the_passes(
    width: u32,
    height: u32,
    t: u32,
    block_size: u32,
    search_radius: u32,
    n: int,
    i: int,
)
    ensures
        ({
            let steps = spec_program(width, height, t, block_size, search_radius);
            let bindings = spec_plan(width, height, block_size).bindings;
            &&& 0 <= n < steps.len() && steps[n] is Dispatch ==> {
                &&& steps[n]->pass < spec_pass_layouts().len()
                &&& spec_pass_layouts()[steps[n]->pass as int].constant_bytes
                    == steps[n]->constants.spec_bytes().len()
            }
            &&& 0 <= i < bindings.len() ==> {
                &&& bindings[i].pass < spec_pass_layouts().len()
                &&& bindings[i].binding < spec_pass_layouts()[bindings[i].pass as int].bindings
            }
        }),
{
    let c = PushConstants { width, height, t, block_size, search_radius };
    program::law_constants_are_words(c, program::FlowConvertPc { count: 0 });
}

/// What is read back is in memory that the CPU can reach, and so are the two buffers that
/// the frames are written to.
pub proof fn law_results_can_be_read(width: u32, height: u32, block_size: u32)
    ensures
        ({
            let buffers = spec_plan(width, height, block_size).buffers;
            &&& memory::for_cpu(buffers[READBACK as int].memory)
            &&& memory::for_cpu(buffers[STAGING_A as int].memory)
            &&& memory::for_cpu(buffers[STAGING_B as int].memory)
        }),
{
}

} // verus!
