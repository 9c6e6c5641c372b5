//! AMD FSR 2 native upscaling backend.
//!
//! Motion vectors are passed as zero and the temporal history is reset every
//! frame, because a screen-capture stream has no engine-generated jitter / MVs
//! to drive FSR2's TAA-style accumulator — feeding it stale history produces
//! ghosting. Temporal interpolation (frame generation) is not supported by this
//! backend.

use vstd::prelude::*;

use crate::interpolate::backends::common;
use crate::interpolate::backends::common::{CacheAction, Upload, UploadData, UploadView};
use crate::interpolate::backends::fsr2;
use crate::interpolate::blend::FrameInterpolator;
use crate::interpolate::error::InterpolateError;
use crate::interpolate::frame::{FrameView, GpuFrame};
use crate::proto::layout;
use crate::vulkan::flow::{Cell, Content, Contents, Machine};
use crate::vulkan::memory;
use crate::vulkan::memory::{MemoryKind, ObjectKind};
use crate::vulkan::program;
use crate::vulkan::program::{
    BufferRequest, Format, ImageRequest, Layout, Plan, PlanView, SdkWork, Step,
};

verus! {

pub const COLOR: usize = 0;

pub const DEPTH: usize = 1;

pub const MOTION_VECTORS: usize = 2;

pub const OUTPUT: usize = 3;

pub const STAGING_COLOR: usize = 0;

pub const STAGING_DEPTH: usize = 1;

pub const STAGING_MOTION: usize = 2;

pub const READBACK: usize = 3;

/// Resolutions of an upscale: of the source and of the destination.
#[derive(Debug, Clone, Copy, PartialEq, Eq, Structural)]
pub struct Resolutions {
    pub src_w: u32,
    pub src_h: u32,
    pub dst_w: u32,
    pub dst_h: u32,
}

impl Resolutions {
    /// Whether the byte sizes can be represented.
    pub open spec fn fit(self) -> bool {
        &&& fsr2::frame_bytes(self.src_w, self.src_h) <= u32::MAX
        &&& fsr2::frame_bytes(self.dst_w, self.dst_h) <= u32::MAX
        &&& self.dst_w * 4 <= u32::MAX
    }
}

/// An image for the upscaler.
pub open spec fn fsr_image_of(width: u32, height: u32, format: Format) -> ImageRequest {
    ImageRequest { width, height, format, kind: ObjectKind::FsrImage }
}

/// A buffer that the CPU writes to or reads from.
pub open spec fn host_buffer_of(size: int, transfer_src: bool) -> BufferRequest {
    BufferRequest {
        size: size as u64,
        storage: false,
        transfer_src,
        transfer_dst: !transfer_src,
        memory: MemoryKind::HostCachedOrHost,
    }
}

fn host_buffer(size: u64, transfer_src: bool) -> (r: BufferRequest)
    ensures
        r == host_buffer_of(size as int, transfer_src),
{
    BufferRequest {
        size,
        storage: false,
        transfer_src,
        transfer_dst: !transfer_src,
        memory: MemoryKind::HostCachedOrHost,
    }
}

fn fsr_image(width: u32, height: u32, format: Format) -> (r: ImageRequest)
    ensures
        r == fsr_image_of(width, height, format),
{
    ImageRequest { width, height, format, kind: ObjectKind::FsrImage }
}

/// The resources of an upscale.
pub open spec fn spec_plan(s: Resolutions) -> PlanView {
    let src = fsr2::frame_bytes(s.src_w, s.src_h);
    let dst = fsr2::frame_bytes(s.dst_w, s.dst_h);
    PlanView {
        buffers: seq![
            host_buffer_of(src, true),
            host_buffer_of(src, true),
            host_buffer_of(src, true),
            host_buffer_of(dst, false),
        ],
        images: seq![
            fsr_image_of(s.src_w, s.src_h, Format::Rgba8),
            fsr_image_of(s.src_w, s.src_h, Format::R32Float),
            fsr_image_of(s.src_w, s.src_h, Format::Rg16Float),
            fsr_image_of(s.dst_w, s.dst_h, Format::Rgba8),
        ],
        bindings: seq![],
    }
}

/// The commands that fill the depth and motion-vector images, once.
pub open spec fn spec_init(s: Resolutions) -> Seq<Step> {
    seq![
        program::simple_barrier_of(DEPTH, Layout::Undefined, Layout::TransferDst),
        Step::CopyBufferToImage {
            buffer: STAGING_DEPTH,
            image: DEPTH,
            width: s.src_w,
            height: s.src_h,
        },
        program::simple_barrier_of(DEPTH, Layout::TransferDst, Layout::ShaderRead),
        program::simple_barrier_of(MOTION_VECTORS, Layout::Undefined, Layout::TransferDst),
        Step::CopyBufferToImage {
            buffer: STAGING_MOTION,
            image: MOTION_VECTORS,
            width: s.src_w,
            height: s.src_h,
        },
        program::simple_barrier_of(MOTION_VECTORS, Layout::TransferDst, Layout::ShaderRead),
    ]
}

/// The commands of one frame: upload the color image, upscale, read back.
pub open spec fn spec_frame(s: Resolutions) -> Seq<Step> {
    seq![
        program::simple_barrier_of(COLOR, Layout::Undefined, Layout::TransferDst),
        Step::CopyBufferToImage {
            buffer: STAGING_COLOR,
            image: COLOR,
            width: s.src_w,
            height: s.src_h,
        },
        program::simple_barrier_of(COLOR, Layout::TransferDst, Layout::ShaderRead),
        program::simple_barrier_of(OUTPUT, Layout::Undefined, Layout::General),
        program::copies_before_shaders_of(),
        Step::Sdk(SdkWork::Upscale),
        program::before_download_of(OUTPUT),
        Step::CopyImageToBuffer {
            image: OUTPUT,
            buffer: READBACK,
            width: s.dst_w,
            height: s.dst_h,
        },
    ]
}

/// The resources of an upscale.
#[must_use]
pub fn plan(s: Resolutions) -> (r: Plan)
    requires
        s.fit(),
    ensures
        r@ == spec_plan(s),
{
    let src: u64 = fsr2::frame_size(s.src_w, s.src_h);
    let dst: u64 = fsr2::frame_size(s.dst_w, s.dst_h);
    let mut buffers: Vec<BufferRequest> = Vec::new();
    buffers.push(host_buffer(src, true));
    buffers.push(host_buffer(src, true));
    buffers.push(host_buffer(src, true));
    buffers.push(host_buffer(dst, false));
    let mut images: Vec<ImageRequest> = Vec::new();
    images.push(fsr_image(s.src_w, s.src_h, Format::Rgba8));
    images.push(fsr_image(s.src_w, s.src_h, Format::R32Float));
    images.push(fsr_image(s.src_w, s.src_h, Format::Rg16Float));
    images.push(fsr_image(s.dst_w, s.dst_h, Format::Rgba8));
    let r = Plan { buffers, images, bindings: Vec::new() };
    assert(r@ =~= spec_plan(s));
    r
}

/// The commands that fill the depth and motion-vector images.
///
/// Depth is 1.0 (far plane under inverted-infinite depth), motion vectors are 0.
/// Both are constants for screen-capture upscale, so they are uploaded exactly
/// once, and every frame reads the same images.
#[must_use]
pub fn init_program(s: Resolutions) -> (r: Vec<Step>)
    ensures
        r@ == spec_init(s),
{
    let mut r: Vec<Step> = Vec::new();
    r.push(program::simple_barrier(DEPTH, Layout::Undefined, Layout::TransferDst));
    r.push(
        Step::CopyBufferToImage {
            buffer: STAGING_DEPTH,
            image: DEPTH,
            width: s.src_w,
            height: s.src_h,
        },
    );
    r.push(program::simple_barrier(DEPTH, Layout::TransferDst, Layout::ShaderRead));
    r.push(program::simple_barrier(MOTION_VECTORS, Layout::Undefined, Layout::TransferDst));
    r.push(
        Step::CopyBufferToImage {
            buffer: STAGING_MOTION,
            image: MOTION_VECTORS,
            width: s.src_w,
            height: s.src_h,
        },
    );
    r.push(program::simple_barrier(MOTION_VECTORS, Layout::TransferDst, Layout::ShaderRead));
    assert(r@ =~= spec_init(s));
    r
}

/// The commands of one frame. Only the color image and the output image are
/// touched; their old contents are discarded.
#[must_use]
pub fn frame_program(s: Resolutions) -> (r: Vec<Step>)
    ensures
        r@ == spec_frame(s),
{
    let mut r: Vec<Step> = Vec::new();
    r.push(program::simple_barrier(COLOR, Layout::Undefined, Layout::TransferDst));
    r.push(
        Step::CopyBufferToImage {
            buffer: STAGING_COLOR,
            image: COLOR,
            width: s.src_w,
            height: s.src_h,
        },
    );
    r.push(program::simple_barrier(COLOR, Layout::TransferDst, Layout::ShaderRead));
    r.push(program::simple_barrier(OUTPUT, Layout::Undefined, Layout::General));
    r.push(program::copies_before_shaders());
    r.push(Step::Sdk(SdkWork::Upscale));
    r.push(program::before_download(OUTPUT));
    r.push(
        Step::CopyImageToBuffer {
            image: OUTPUT,
            buffer: READBACK,
            width: s.dst_w,
            height: s.dst_h,
        },
    );
    assert(r@ =~= spec_frame(s));
    r
}

/// Bytes of the number 1.0 in single precision.
pub open spec fn far_depth() -> Seq<u8> {
    seq![0x00u8, 0x00, 0x80, 0x3f]
}

/// The depth 1.0 for every pixel.
pub open spec fn depth_bytes(pixels: nat) -> Seq<u8> {
    Seq::new(pixels * 4, |i: int| far_depth()[i % 4])
}

/// The depth 1.0 for every pixel.
#[must_use]
pub fn depth_scratch(pixels: usize) -> (r: Vec<u8>)
    requires
        pixels * 4 <= usize::MAX,
    ensures
        r@ == depth_bytes(pixels as nat),
{
    let total: usize = pixels * 4;
    let mut r: Vec<u8> = Vec::with_capacity(total);
    let mut i: usize = 0;
    while i < pixels
        invariant
            i <= pixels,
            pixels * 4 <= usize::MAX,
            r@ == depth_bytes(i as nat),
        decreases pixels - i,
    {
        r.push(0x00);
        r.push(0x00);
        r.push(0x80);
        r.push(0x3f);
        assert(r@ =~= depth_bytes((i + 1) as nat));
        i = i + 1;
    }
    r
}

/// Motion vectors of 0 for every pixel.
#[must_use]
pub fn motion_scratch(pixels: usize) -> (r: Vec<u8>)
    requires
        pixels * 4 <= usize::MAX,
    ensures
        r@ == Seq::new((pixels * 4) as nat, |i: int| 0u8),
{
    let r: Vec<u8> = vec![0u8; pixels * 4];
    assert(r@ =~= Seq::new((pixels * 4) as nat, |i: int| 0u8));
    r
}

/// What is written to the buffers once: a depth and a motion vector for every
/// pixel of the source.
pub open spec fn spec_init_uploads(s: Resolutions) -> Seq<UploadView> {
    seq![
        UploadView { buffer: STAGING_DEPTH, data: depth_bytes((s.src_w * s.src_h) as nat) },
        UploadView {
            buffer: STAGING_MOTION,
            data: Seq::new((s.src_w * s.src_h * 4) as nat, |i: int| 0u8),
        },
    ]
}

/// What is written to the buffers once.
#[must_use]
pub fn init_uploads<'a>(s: Resolutions) -> (r: Vec<Upload<'a>>)
    requires
        s.fit(),
    ensures
        common::uploads_of(r@) == spec_init_uploads(s),
{
    assert(0 <= s.src_w * s.src_h <= s.src_w * s.src_h * 4) by (nonlinear_arith)
        requires
            s.src_w >= 0,
            s.src_h >= 0,
    ;
    let pixels: usize = (s.src_w * s.src_h) as usize;
    let mut r: Vec<Upload<'a>> = Vec::new();
    r.push(Upload { buffer: STAGING_DEPTH, data: UploadData::Made(depth_scratch(pixels)) });
    r.push(Upload { buffer: STAGING_MOTION, data: UploadData::Made(motion_scratch(pixels)) });
    assert(common::uploads_of(r@) =~= spec_init_uploads(s));
    r
}

/// Real AMD FSR 2 upscaling.
///
/// GPU resources and the FSR context are kept alive across frames and recreated
/// only when input/output dimensions change. The FSR context is bound to
/// specific resolutions at creation: using it for an output texture of another
/// size leads to wrong sampling ratios.
#[derive(Debug)]
pub struct Fsr2NativeInterpolator {
    /// Resolutions that resources exist for.
    cached: Option<Resolutions>,
}

/// The work of one upscale.
#[derive(Debug)]
pub struct UpscaleWork<'a> {
    /// What to do with the resources of the last call. Where they are not kept,
    /// an FSR context is created for the same resolutions.
    pub cache: CacheAction,
    /// The resolutions.
    pub resolutions: Resolutions,
    /// The resources.
    pub plan: Plan,
    /// What is written to the buffers once after the resources were created,
    /// before `init` runs; nothing where they are kept.
    pub init_uploads: Vec<Upload<'a>>,
    /// The commands that run once after the resources were created; none where
    /// they are kept.
    pub init: Vec<Step>,
    /// What is written to the buffers before the commands of the frame run.
    pub uploads: Vec<Upload<'a>>,
    /// The commands of the frame.
    pub frame: Vec<Step>,
    /// Number of bytes to read back.
    pub read_size: u64,
}

/// What an upscale asks for.
#[verifier::ext_equal]
pub struct UpscaleView {
    pub cache: CacheAction,
    pub resolutions: Resolutions,
    pub plan: PlanView,
    pub init_uploads: Seq<UploadView>,
    pub init: Seq<Step>,
    pub uploads: Seq<UploadView>,
    pub frame: Seq<Step>,
    pub read_size: u64,
}

impl<'a> View for UpscaleWork<'a> {
    type V = UpscaleView;

    open spec fn view(&self) -> UpscaleView {
        UpscaleView {
            cache: self.cache,
            resolutions: self.resolutions,
            plan: self.plan@,
            init_uploads: common::uploads_of(self.init_uploads@),
            init: self.init@,
            uploads: common::uploads_of(self.uploads@),
            frame: self.frame@,
            read_size: self.read_size,
        }
    }
}

/// What to do with the resources of the last call, for these resolutions.
pub open spec fn cache_action_for(cached: Option<Resolutions>, s: Resolutions) -> CacheAction {
    match cached {
        Some(c) => if c == s {
            CacheAction::Keep
        } else {
            CacheAction::Replace
        },
        None => CacheAction::Create,
    }
}

/// What an upscale asks for, where resources exist for the resolutions `cached`.
pub open spec fn upscale_work(
    cached: Option<Resolutions>,
    src: FrameView,
    dst_w: u32,
    dst_h: u32,
) -> UpscaleView {
    let s = Resolutions { src_w: src.width, src_h: src.height, dst_w, dst_h };
    let kept = cache_action_for(cached, s) == CacheAction::Keep;
    UpscaleView {
        cache: cache_action_for(cached, s),
        resolutions: s,
        plan: spec_plan(s),
        init_uploads: if kept {
            Seq::empty()
        } else {
            spec_init_uploads(s)
        },
        init: if kept {
            Seq::empty()
        } else {
            spec_init(s)
        },
        uploads: seq![UploadView { buffer: STAGING_COLOR, data: src.data }],
        frame: spec_frame(s),
        read_size: fsr2::frame_bytes(dst_w, dst_h) as u64,
    }
}

/// The frame made of pixels that the GPU handed back.
pub open spec fn upscaled(src: FrameView, dst_w: u32, dst_h: u32, data: Seq<u8>) -> FrameView {
    FrameView {
        data,
        width: dst_w,
        height: dst_h,
        stride: (dst_w * 4) as u32,
        timestamp_ns: src.timestamp_ns,
    }
}

/// What an FSR context is created with.
#[derive(Debug, Clone, Copy, PartialEq, Eq, Structural)]
pub struct ContextParameters {
    /// Whether the far plane is infinitely far.
    pub depth_infinite: bool,
    /// Whether depth falls with the distance.
    pub depth_inverted: bool,
    /// Largest width that is rendered.
    pub max_render_w: u32,
    /// Largest height that is rendered.
    pub max_render_h: u32,
    /// Width of the output.
    pub display_w: u32,
    /// Height of the output.
    pub display_h: u32,
}

/// What the upscaling pass is given. Floating-point numbers are IEEE 754
/// single-precision bits.
#[derive(Debug, Clone, Copy, PartialEq, Eq, Structural)]
pub struct DispatchParameters {
    /// Image with the colors.
    pub color: usize,
    /// Image with the depth.
    pub depth: usize,
    /// Image with the motion vectors.
    pub motion_vectors: usize,
    /// Image that is written.
    pub output: usize,
    /// Time since the last frame, in seconds.
    pub frame_time_delta: u32,
    /// Width that is rendered.
    pub render_w: u32,
    /// Height that is rendered.
    pub render_h: u32,
    /// Offset of the camera, across.
    pub jitter_x: u32,
    /// Offset of the camera, down.
    pub jitter_y: u32,
    /// Whether the temporal history is forgotten.
    pub reset: bool,
    /// Strength of the sharpening.
    pub sharpness: u32,
}

/// What the FSR context for these resolutions is created with.
pub open spec fn context_parameters_of(s: Resolutions) -> ContextParameters {
    ContextParameters {
        depth_infinite: true,
        depth_inverted: true,
        max_render_w: s.src_w,
        max_render_h: s.src_h,
        display_w: s.dst_w,
        display_h: s.dst_h,
    }
}

/// What the FSR context for these resolutions is created with: its display size
/// is that of the output texture, and depth is inverted and infinite.
#[must_use]
pub fn context_parameters(s: Resolutions) -> (r: ContextParameters)
    ensures
        r == context_parameters_of(s),
{
    ContextParameters {
        depth_infinite: true,
        depth_inverted: true,
        max_render_w: s.src_w,
        max_render_h: s.src_h,
        display_w: s.dst_w,
        display_h: s.dst_h,
    }
}

/// What the upscaling pass of a frame is given.
pub open spec fn dispatch_parameters_of(s: Resolutions) -> DispatchParameters {
    DispatchParameters {
        color: COLOR,
        depth: DEPTH,
        motion_vectors: MOTION_VECTORS,
        output: OUTPUT,
        frame_time_delta: 0x3c88_8889,
        render_w: s.src_w,
        render_h: s.src_h,
        jitter_x: 0,
        jitter_y: 0,
        reset: true,
        sharpness: 0x3f59_999a,
    }
}

/// What the upscaling pass of a frame is given: a 60th of a second since the last
/// frame, no jitter, and a sharpness of 0.85. The temporal history is forgotten
/// with every frame, because there are no motion vectors to follow it by.
#[must_use]
pub fn dispatch_parameters(s: Resolutions) -> (r: DispatchParameters)
    ensures
        r == dispatch_parameters_of(s),
{
    DispatchParameters {
        color: COLOR,
        depth: DEPTH,
        motion_vectors: MOTION_VECTORS,
        output: OUTPUT,
        frame_time_delta: 0x3c88_8889,
        render_w: s.src_w,
        render_h: s.src_h,
        jitter_x: 0,
        jitter_y: 0,
        reset: true,
        sharpness: 0x3f59_999a,
    }
}

impl Fsr2NativeInterpolator {
    /// Resolutions that resources exist for.
    pub closed spec fn spec_cached(self) -> Option<Resolutions> {
        self.cached
    }

    /// Create a new FSR 2 native upscaler; `interface` says whether the SDK and
    /// the driver can host FSR at all.
    ///
    /// # Errors
    ///
    /// The FSR interface cannot be had, for the reason given.
    pub fn new(interface: Result<(), String>) -> (r: Result<
        Fsr2NativeInterpolator,
        InterpolateError,
    >)
        ensures
            match interface {
                Ok(_) => r matches Ok(i) && i.spec_cached() is None,
                Err(e) => r matches Err(InterpolateError::InitFailed(m)) && m@ == "FSR interface: "@
                    + e@,
            },
    {
        match interface {
            Ok(_) => Ok(Fsr2NativeInterpolator { cached: None }),
            Err(e) => {
                let mut m = String::from_str("FSR interface: ");
                m.append(e.as_str());
                Err(InterpolateError::InitFailed(m))
            },
        }
    }

    /// The work to upscale `src` from its native resolution to `dst_w × dst_h`.
    pub fn begin_upscale<'a>(&self, src: &'a GpuFrame, dst_w: u32, dst_h: u32) -> (r: UpscaleWork<
        'a,
    >)
        requires
            (Resolutions { src_w: src.width, src_h: src.height, dst_w, dst_h }).fit(),
        ensures
            r@ == upscale_work(self.spec_cached(), src@, dst_w, dst_h),
    {
        let resolutions = Resolutions { src_w: src.width, src_h: src.height, dst_w, dst_h };
        let cache = match self.cached {
            Some(s) => if s == resolutions {
                CacheAction::Keep
            } else {
                CacheAction::Replace
            },
            None => CacheAction::Create,
        };
        let kept = cache == CacheAction::Keep;
        let init_uploads: Vec<Upload<'a>> = if kept {
            Vec::new()
        } else {
            init_uploads(resolutions)
        };
        let init: Vec<Step> = if kept {
            Vec::new()
        } else {
            init_program(resolutions)
        };
        let mut uploads: Vec<Upload<'a>> = Vec::new();
        uploads.push(
            Upload { buffer: STAGING_COLOR, data: UploadData::Pixels(src.data.as_slice()) },
        );
        assert(common::uploads_of(uploads@) =~= seq![
            UploadView { buffer: STAGING_COLOR, data: src@.data },
        ]);
        assert(kept ==> common::uploads_of(init_uploads@) =~= Seq::<UploadView>::empty());
        let work = UpscaleWork {
            cache,
            resolutions,
            plan: plan(resolutions),
            init_uploads,
            init,
            uploads,
            frame: frame_program(resolutions),
            read_size: fsr2::frame_size(dst_w, dst_h),
        };
        assert(work@ =~= upscale_work(self.spec_cached(), src@, dst_w, dst_h));
        work
    }

    /// Note that resources exist for these resolutions, or that none exist.
    pub fn set_cached(&mut self, resolutions: Option<Resolutions>)
        ensures
            final(self).spec_cached() == resolutions,
    {
        self.cached = resolutions;
    }

    /// The frame made of pixels that the GPU handed back: tightly packed, with
    /// the timestamp of the source.
    pub fn finish_upscale(src: &GpuFrame, dst_w: u32, dst_h: u32, data: Vec<u8>) -> (r: GpuFrame)
        requires
            dst_w * 4 <= u32::MAX,
        ensures
            r@ == upscaled(src@, dst_w, dst_h, data@),
    {
        GpuFrame {
            data,
            width: dst_w,
            height: dst_h,
            stride: dst_w * 4,
            timestamp_ns: src.timestamp_ns,
        }
    }
}

impl FrameInterpolator for Fsr2NativeInterpolator {
    open spec fn ready_for(&self, a: FrameView, b: FrameView, t: u32) -> bool {
        true
    }

    open spec fn may_answer(
        &self,
        a: FrameView,
        b: FrameView,
        t: u32,
        r: Result<GpuFrame, InterpolateError>,
    ) -> bool {
        match common::refusal(a, b, t) {
            Some(e) => r == Err::<GpuFrame, _>(e),
            None => r matches Err(InterpolateError::InterpolateFailed(m)) && m@
                == "Fsr2NativeInterpolator does not support temporal interpolation; use upscale() instead"@,
        }
    }

    /// Temporal frame interpolation is not implemented — this backend
    /// only performs spatial upscaling via FSR 2.
    fn interpolate(&mut self, a: &GpuFrame, b: &GpuFrame, t: u32) -> (r: Result<
        GpuFrame,
        InterpolateError,
    >)
        ensures
            final(self).spec_cached() == old(self).spec_cached(),
    {
        match common::check_request(a, b, t) {
            Ok(_) => {},
            Err(e) => {
                return Err(e);
            },
        }
        Err(
            InterpolateError::InterpolateFailed(
                String::from_str(
                    "Fsr2NativeInterpolator does not support temporal interpolation; use upscale() instead",
                ),
            ),
        )
    }

    /// 1.5 ms.
    fn latency_ms(&self) -> (r: u32)
        ensures
            r == 0x3fc0_0000,
    {
        0x3fc0_0000
    }

    fn name(&self) -> (r: &'static str)
        ensures
            r@ == "fsr2-native"@,
    {
        "fsr2-native"
    }
}

/// Whether the images are as the commands of a frame leave them: the depth and
/// the motion vectors can be read.
pub open spec fn ready_for_frame(layouts: Seq<Layout>) -> bool {
    &&& layouts.len() == 4
    &&& layouts[DEPTH as int] == Layout::ShaderRead
    &&& layouts[MOTION_VECTORS as int] == Layout::ShaderRead
}

/// The commands that run once are sound on new resources, and leave them ready
/// for a frame.
pub proof fn law_init_is_sound(s: Resolutions)
    requires
        s.fit(),
    ensures
        program::sound(
            spec_plan(s),
            program::all_in(spec_plan(s), Layout::Undefined),
            spec_init(s),
        ),
        ready_for_frame(
            program::layouts_after(
                program::all_in(spec_plan(s), Layout::Undefined),
                spec_init(s),
                spec_init(s).len() as int,
            ),
        ),
{
    let p = spec_plan(s);
    let steps = spec_init(s);
    let start = program::all_in(p, Layout::Undefined);
    let u = Layout::Undefined;
    let d = Layout::TransferDst;
    let r = Layout::ShaderRead;
    lemma_sizes(s);
    reveal(program::sound);
    reveal_with_fuel(program::layouts_after, 7);
    assert(program::layouts_after(start, steps, 1) =~= seq![u, d, u, u]);
    assert(program::layouts_after(start, steps, 3) =~= seq![u, r, u, u]);
    assert(program::layouts_after(start, steps, 4) =~= seq![u, r, d, u]);
    assert(program::layouts_after(start, steps, 6) =~= seq![u, r, r, u]);
}

proof fn lemma_sizes(s: Resolutions)
    ensures
        0 <= fsr2::frame_bytes(s.src_w, s.src_h),
        0 <= fsr2::frame_bytes(s.dst_w, s.dst_h),
{
    assert(0 <= s.src_w * s.src_h * 4 && 0 <= s.dst_w * s.dst_h * 4) by (nonlinear_arith)
        requires
            s.src_w >= 0,
            s.src_h >= 0,
            s.dst_w >= 0,
            s.dst_h >= 0,
    ;
}

/// The commands of a frame are sound on resources that are ready for a frame,
/// and leave them ready for the next one: the images that were filled once are
/// never touched again.
pub proof fn law_frames_repeat(s: Resolutions, start: Seq<Layout>)
    requires
        s.fit(),
        ready_for_frame(start),
    ensures
        program::sound(spec_plan(s), start, spec_frame(s)),
        ready_for_frame(
            program::layouts_after(start, spec_frame(s), spec_frame(s).len() as int),
        ),
{
    let p = spec_plan(s);
    let steps = spec_frame(s);
    let o = start[OUTPUT as int];
    let d = Layout::TransferDst;
    let t = Layout::TransferSrc;
    let g = Layout::General;
    let r = Layout::ShaderRead;
    lemma_sizes(s);
    reveal(program::sound);
    reveal_with_fuel(program::layouts_after, 9);
    assert(program::layouts_after(start, steps, 1) =~= seq![d, r, r, o]);
    assert(program::layouts_after(start, steps, 3) =~= seq![r, r, r, o]);
    assert(program::layouts_after(start, steps, 4) =~= seq![r, r, r, g]);
    assert(program::layouts_after(start, steps, 6) =~= seq![r, r, r, g]);
    assert(program::layouts_after(start, steps, 7) =~= seq![r, r, r, t]);
    assert(program::layouts_after(start, steps, 8) =~= seq![r, r, r, t]);
}

/// What is written once fills its buffers exactly, and the buffers that are
/// written are in memory that the CPU can write.
pub proof fn law_uploads_fill_their_buffers(s: Resolutions, i: int)
    requires
        s.fit(),
        0 <= i < spec_init_uploads(s).len(),
    ensures
        ({
            let upload = spec_init_uploads(s)[i];
            &&& 0 <= upload.buffer < spec_plan(s).buffers.len()
            &&& spec_plan(s).buffers[upload.buffer as int].size == upload.data.len()
            &&& spec_plan(s).buffers[upload.buffer as int].memory
                == MemoryKind::HostCachedOrHost
        }),
        spec_plan(s).buffers[STAGING_COLOR as int].memory == MemoryKind::HostCachedOrHost,
{
    lemma_sizes(s);
    assert(0 <= s.src_w * s.src_h) by (nonlinear_arith)
        requires
            s.src_w >= 0,
            s.src_h >= 0,
    ;
}

/// The frame made of the bytes that were asked for is complete, whatever sizes
/// earlier calls had: it has the size that was asked for, four bytes for each of
/// its pixels, tightly packed, and the timestamp of the source.
pub proof fn law_upscaled_frame_is_complete(
    cached: Option<Resolutions>,
    src: FrameView,
    dst_w: u32,
    dst_h: u32,
    data: Seq<u8>,
)
    requires
        (Resolutions { src_w: src.width, src_h: src.height, dst_w, dst_h }).fit(),
        data.len() == upscale_work(cached, src, dst_w, dst_h).read_size,
    ensures
        ({
            let f = upscaled(src, dst_w, dst_h, data);
            &&& f.width == dst_w
            &&& f.height == dst_h
            &&& f.stride == dst_w * 4
            &&& f.data.len() == dst_w * dst_h * 4
            &&& f.timestamp_ns == src.timestamp_ns
        }),
{
    lemma_sizes(Resolutions { src_w: src.width, src_h: src.height, dst_w, dst_h });
}

/// An output is never clipped to an earlier size: resources are kept only where
/// they exist for the very resolutions of the call, and otherwise the new ones are
/// as large as the frame. The whole output is copied to the buffer that is read.
pub proof fn law_output_is_never_clipped(
    cached: Option<Resolutions>,
    src: FrameView,
    dst_w: u32,
    dst_h: u32,
)
    requires
        (Resolutions { src_w: src.width, src_h: src.height, dst_w, dst_h }).fit(),
    ensures
        ({
            let work = upscale_work(cached, src, dst_w, dst_h);
            &&& work.cache == CacheAction::Keep ==> cached == Some(work.resolutions)
            &&& work.plan == spec_plan(work.resolutions)
            &&& work.plan.images[COLOR as int].width == src.width
            &&& work.plan.images[COLOR as int].height == src.height
            &&& work.plan.images[OUTPUT as int].width == dst_w
            &&& work.plan.images[OUTPUT as int].height == dst_h
            &&& work.plan.buffers[READBACK as int].size == dst_w * dst_h * 4
            &&& work.read_size == dst_w * dst_h * 4
            &&& work.frame.last() == (Step::CopyImageToBuffer {
                image: OUTPUT,
                buffer: READBACK,
                width: dst_w,
                height: dst_h,
            })
        }),
{
    lemma_sizes(Resolutions { src_w: src.width, src_h: src.height, dst_w, dst_h });
}

/// What runs the commands.
pub open spec fn machine(plan: PlanView) -> Machine {
    Machine { plan, pass_buffers: seq![], discards: true, overlaps: true }
}

/// Whether bytes are the depth 1.0 for each of a number of pixels.
pub open spec fn is_far(depth: Seq<u8>, pixels: int) -> bool {
    &&& depth.len() == 4 * pixels
    &&& forall|i: int|
        0 <= i < pixels ==> #[trigger] layout::word(depth, 4 * i) == 0x3f80_0000
}

/// Whether bytes are a motion of 0 for each of a number of pixels.
pub open spec fn is_still(motion: Seq<u8>, pixels: int) -> bool {
    &&& motion.len() == 4 * pixels
    &&& forall|i: int| 0 <= i < motion.len() ==> #[trigger] motion[i] == 0
}

/// New resources are filled once: with a depth of 1.0 and a motion of 0 for every
/// pixel of the source. Those that are kept are not filled again.
pub proof fn law_depth_and_motion_are_filled_once(
    cached: Option<Resolutions>,
    src: FrameView,
    dst_w: u32,
    dst_h: u32,
)
    requires
        (Resolutions { src_w: src.width, src_h: src.height, dst_w, dst_h }).fit(),
    ensures
        ({
            let s = Resolutions { src_w: src.width, src_h: src.height, dst_w, dst_h };
            let work = upscale_work(cached, src, dst_w, dst_h);
            let m = machine(work.plan);
            let pixels = src.width * src.height;
            let end = m.done(
                common::contents_after_uploads(m, m.blank(), work.init_uploads),
                work.init,
            );
            &&& cached == Some(s) ==> work.init_uploads.len() == 0 && work.init.len() == 0
            &&& cached != Some(s) ==> {
                &&& end.images[DEPTH as int].content matches Content::Written(d) && is_far(
                    d,
                    pixels,
                )
                &&& end.images[MOTION_VECTORS as int].content matches Content::Written(v)
                    && is_still(v, pixels)
            }
            &&& cached is None ==> work.cache == CacheAction::Create
            &&& cached is Some && cached != Some(s) ==> work.cache == CacheAction::Replace
        }),
{
    let s = Resolutions { src_w: src.width, src_h: src.height, dst_w, dst_h };
    let work = upscale_work(cached, src, dst_w, dst_h);
    let m = machine(work.plan);
    let pixels = src.width * src.height;
    lemma_sizes(s);
    assert(0 <= pixels) by (nonlinear_arith)
        requires
            pixels == src.width * src.height,
    ;
    if cached != Some(s) {
        let d = depth_bytes(pixels as nat);
        let v = Seq::new((pixels * 4) as nat, |i: int| 0u8);
        assert(is_far(d, pixels)) by {
            assert forall|i: int| 0 <= i < pixels implies #[trigger] layout::word(d, 4 * i)
                == 0x3f80_0000 by {
                assert((4 * i) % 4 == 0 && (4 * i + 1) % 4 == 1 && (4 * i + 2) % 4 == 2 && (4 * i
                    + 3) % 4 == 3);
            }
        }
        let uploads = work.init_uploads;
        assert(uploads.drop_last().drop_last() =~= Seq::empty());
        reveal_with_fuel(common::contents_after_uploads, 3);
        let start = common::contents_after_uploads(m, m.blank(), uploads);
        assert(start.buffers[STAGING_DEPTH as int].content == Content::Written(d));
        assert(start.buffers[STAGING_MOTION as int].content == Content::Written(v));
        let steps = work.init;
        assert(m.after(start, steps, 0) == start);
        let m1 = m.after(start, steps, 1);
        let m2 = m.after(start, steps, 2);
        assert(m2.images[DEPTH as int].content == Content::Written(d));
        let m3 = m.after(start, steps, 3);
        let m4 = m.after(start, steps, 4);
        let m5 = m.after(start, steps, 5);
        assert(m5.images[MOTION_VECTORS as int].content == Content::Written(v));
        let m6 = m.after(start, steps, 6);
        assert(m6.images[DEPTH as int].content == Content::Written(d));
    }
}

/// Every frame reaches the upscaler, and what that makes of it reaches the CPU.
/// When the upscaler runs, the image that it is given for the colors holds the
/// pixels of the frame, and those for the depth and the motion vectors what they
/// were filled with. The image that it is given for the output is what is read
/// back, and the images that were filled once are left for the next frame.
pub proof fn law_frame_reaches_the_upscaler(
    cached: Option<Resolutions>,
    src: FrameView,
    dst_w: u32,
    dst_h: u32,
    before: Contents,
    n: int,
)
    requires
        (Resolutions { src_w: src.width, src_h: src.height, dst_w, dst_h }).fit(),
        src.data.len() == src.width * src.height * 4,
        before.buffers.len() == 4,
        before.images.len() == 4,
        before.images[DEPTH as int] == Cell::ready(before.images[DEPTH as int].content),
        before.images[MOTION_VECTORS as int] == Cell::ready(
            before.images[MOTION_VECTORS as int].content,
        ),
    ensures
        ({
            let work = upscale_work(cached, src, dst_w, dst_h);
            let m = machine(work.plan);
            let start = common::contents_after_uploads(m, before, work.uploads);
            let given = dispatch_parameters_of(work.resolutions);
            let depth = before.images[DEPTH as int].content;
            let motion = before.images[MOTION_VECTORS as int].content;
            let now = m.after(start, work.frame, n);
            let end = m.done(start, work.frame);
            &&& 0 <= n < work.frame.len() && work.frame[n] is Sdk ==> {
                &&& work.frame[n] == Step::Sdk(SdkWork::Upscale)
                &&& m.shaded(now.images[given.color as int]) == Content::Written(src.data)
                &&& m.shaded(now.images[given.depth as int]) == depth
                &&& m.shaded(now.images[given.motion_vectors as int]) == motion
            }
            &&& end.buffers[READBACK as int].content == (Content::Worked {
                work: SdkWork::Upscale,
                image: given.output as int,
                inputs: seq![Content::Written(src.data), depth, motion],
            })
            &&& end.images[DEPTH as int] == before.images[DEPTH as int]
            &&& end.images[MOTION_VECTORS as int] == before.images[MOTION_VECTORS as int]
        }),
{
    let work = upscale_work(cached, src, dst_w, dst_h);
    let s = work.resolutions;
    let m = machine(work.plan);
    lemma_sizes(s);
    assert(work.uploads.drop_last() =~= Seq::empty());
    reveal_with_fuel(common::contents_after_uploads, 2);
    let start = common::contents_after_uploads(m, before, work.uploads);
    let steps = work.frame;
    let color = Content::Written(src.data);
    let depth = before.images[DEPTH as int].content;
    let motion = before.images[MOTION_VECTORS as int].content;
    assert(start.buffers[STAGING_COLOR as int].content == color);
    assert(m.after(start, steps, 0) == start);
    let m1 = m.after(start, steps, 1);
    let m2 = m.after(start, steps, 2);
    assert(m2.images[COLOR as int].content == color);
    let m3 = m.after(start, steps, 3);
    let m4 = m.after(start, steps, 4);
    assert(m4.images[COLOR as int].content == color);
    let m5 = m.after(start, steps, 5);
    let m6 = m.after(start, steps, 6);
    assert(m.worked(m5, SdkWork::Upscale, 3).content->Worked_inputs =~= seq![
        color,
        depth,
        motion,
    ]);
    let m7 = m.after(start, steps, 7);
    let m8 = m.after(start, steps, 8);
    assert(m8.buffers[READBACK as int].content == m6.images[OUTPUT as int].content);
}

/// The context and the pass are told the sizes of the images that they work on.
pub proof fn law_upscaler_knows_the_sizes(s: Resolutions)
    requires
        s.fit(),
    ensures
        ({
            let images = spec_plan(s).images;
            let given = dispatch_parameters_of(s);
            let context = context_parameters_of(s);
            &&& given.render_w == images[given.color as int].width
            &&& given.render_h == images[given.color as int].height
            &&& given.render_w == images[given.depth as int].width
            &&& given.render_h == images[given.depth as int].height
            &&& given.render_w == images[given.motion_vectors as int].width
            &&& given.render_h == images[given.motion_vectors as int].height
            &&& context.max_render_w == given.render_w
            &&& context.max_render_h == given.render_h
            &&& context.display_w == images[given.output as int].width
            &&& context.display_h == images[given.output as int].height
            &&& given.reset
            &&& given.jitter_x == 0
            &&& given.jitter_y == 0
        }),
{
}

/// This backend makes no frames between others: a request that is wrong is refused as
/// everywhere, and any other with an error of its own.
pub proof fn law_no_frames_between_others(
    interpolator: Fsr2NativeInterpolator,
    a: FrameView,
    b: FrameView,
    t: u32,
    r: Result<GpuFrame, InterpolateError>,
)
    requires
        interpolator.may_answer(a, b, t, r),
    ensures
        common::refusal(a, b, t) matches Some(e) ==> r == Err::<GpuFrame, _>(e),
        common::refusal(a, b, t) is None ==> r matches Err(InterpolateError::InterpolateFailed(_)),
{
}

/// Every buffer is in memory that the CPU can reach, and every image has the view that the
/// upscaler works on.
pub proof fn law_results_can_be_read(s: Resolutions, i: int)
    ensures
        ({
            let plan = spec_plan(s);
            &&& 0 <= i < plan.buffers.len() ==> memory::for_cpu(plan.buffers[i].memory)
            &&& 0 <= i < plan.images.len() ==> memory::view_needed(plan.images[i].kind)
            &&& 0 <= i < plan.images.len() ==> memory::image_usage_of(plan.images[i].kind).sampled
        }),
{
}

} // verus!
