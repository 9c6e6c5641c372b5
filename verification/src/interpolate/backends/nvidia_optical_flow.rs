//! NVIDIA optical flow frame interpolation using the `VK_NV_optical_flow`
//! extension.
//!
//! NVIDIA's hardware-accelerated optical flow engine (available on Turing and
//! newer GPUs) estimates the motion; a compute pass warps and blends.

use vstd::prelude::*;

use crate::interpolate::backends::common;
use crate::interpolate::backends::common::{GpuWork, PassLayout, WorkView};
use crate::interpolate::backends::fsr2;
use crate::interpolate::blend;
use crate::interpolate::error::InterpolateError;
use crate::interpolate::frame::{FrameView, GpuFrame};
use crate::text;
use crate::vulkan::context::VENDOR_NVIDIA;
use crate::vulkan::flow;
use crate::vulkan::flow::{Cell, Content, Machine};
use crate::vulkan::memory;
use crate::vulkan::memory::{MemoryKind, ObjectKind};
use crate::vulkan::program;
use crate::vulkan::program::{
    Access, Binding, BufferRequest, FlowConvertPc, Format, ImageRequest, Layout, PassConstants,
    Plan, PlanView, PushConstants, SdkWork, Stage, Step,
};

verus! {

/// Pixels on each side of a block: the grid that the engine puts out.
pub const GRID: u32 = 4;

/// Threads of a workgroup that converts flow vectors.
pub const CONVERT_WORKGROUP: u32 = 256;

pub const FLOW_RAW: usize = 0;

pub const FRAME_A: usize = 1;

pub const FRAME_B: usize = 2;

pub const MOTION: usize = 3;

pub const OUTPUT: usize = 4;

pub const STAGING_A: usize = 5;

pub const STAGING_B: usize = 6;

pub const READBACK: usize = 7;

pub const IMAGE_A: usize = 0;

pub const IMAGE_B: usize = 1;

pub const FLOW_IMAGE: usize = 2;

/// Conversion of flow vectors.
pub const CONVERT_PASS: usize = 0;

/// Warp and blend.
pub const WARP_PASS: usize = 1;

/// Storage buffer descriptors in the pool.
pub const POOL_DESCRIPTORS: u32 = 12;

/// Descriptor sets in the pool.
pub const POOL_SETS: u32 = 4;

/// Convert: flow_raw(0), motion(1).
/// Warp blend: frame_a(0), frame_b(1), motion(2), output(3).
pub open spec fn spec_pass_layouts() -> Seq<PassLayout> {
    seq![
        PassLayout { bindings: 2, constant_bytes: 4 },
        PassLayout { bindings: 4, constant_bytes: 20 },
    ]
}

/// The layouts of the two passes: conversion, then warp and blend.
#[must_use]
pub fn pass_layouts() -> (r: Vec<PassLayout>)
    ensures
        r@ == spec_pass_layouts(),
{
    let mut r: Vec<PassLayout> = Vec::new();
    r.push(PassLayout { bindings: 2, constant_bytes: 4 });
    r.push(PassLayout { bindings: 4, constant_bytes: 20 });
    assert(r@ =~= spec_pass_layouts());
    r
}

/// Names of the entry points of the extension, in the order they are loaded in.
pub open spec fn spec_entry_points() -> Seq<Seq<char>> {
    seq![
        "vkCreateOpticalFlowSessionNV"@,
        "vkDestroyOpticalFlowSessionNV"@,
        "vkBindOpticalFlowSessionImageNV"@,
        "vkCmdOpticalFlowExecuteNV"@,
    ]
}

/// Names of the entry points of the extension, in the order they are loaded in.
#[must_use]
pub fn entry_points() -> (r: Vec<&'static str>)
    ensures
        r@.len() == 4,
        forall|i: int| 0 <= i < 4 ==> (#[trigger] r@[i])@ == spec_entry_points()[i],
{
    let mut r: Vec<&'static str> = Vec::new();
    r.push("vkCreateOpticalFlowSessionNV");
    r.push("vkDestroyOpticalFlowSessionNV");
    r.push("vkBindOpticalFlowSessionImageNV");
    r.push("vkCmdOpticalFlowExecuteNV");
    r
}

/// Why a device cannot be used, if it cannot. `found` says of each entry point
/// whether the driver has it.
pub open spec fn device_refusal(
    vendor_id: u32,
    extensions: Seq<Seq<char>>,
    found: Seq<bool>,
) -> Option<Seq<char>> {
    if vendor_id != VENDOR_NVIDIA {
        Some("NVIDIA optical flow requires an NVIDIA GPU"@)
    } else if !extensions.contains("VK_NV_optical_flow"@) {
        Some("VK_NV_optical_flow extension not available (requires Turing+ GPU)"@)
    } else if !found[0] {
        Some(spec_entry_points()[0] + " not found"@)
    } else if !found[1] {
        Some(spec_entry_points()[1] + " not found"@)
    } else if !found[2] {
        Some(spec_entry_points()[2] + " not found"@)
    } else if !found[3] {
        Some(spec_entry_points()[3] + " not found"@)
    } else {
        None
    }
}

/// Check that a device can be used.
///
/// # Errors
///
/// The device is not by NVIDIA, lacks the extension, or its driver lacks one of
/// the entry points; the error names the first one that is missing.
pub fn check_device(vendor_id: u32, extensions: &Vec<String>, found: &Vec<bool>) -> (r: Result<
    (),
    InterpolateError,
>)
    requires
        found@.len() == 4,
    ensures
        match device_refusal(vendor_id, text::texts(extensions@), found@) {
            Some(why) => r matches Err(InterpolateError::InitFailed(m)) && m@ == why,
            None => r is Ok,
        },
{
    if vendor_id != VENDOR_NVIDIA {
        return Err(
            InterpolateError::InitFailed(
                String::from_str("NVIDIA optical flow requires an NVIDIA GPU"),
            ),
        );
    }
    if !text::lists(extensions, "VK_NV_optical_flow") {
        return Err(
            InterpolateError::InitFailed(
                String::from_str(
                    "VK_NV_optical_flow extension not available (requires Turing+ GPU)",
                ),
            ),
        );
    }
    let names = entry_points();
    let mut i: usize = 0;
    while i < 4
        invariant
            i <= 4,
            found@.len() == 4,
            names@.len() == 4,
            forall|j: int| 0 <= j < 4 ==> (#[trigger] names@[j])@ == spec_entry_points()[j],
            vendor_id == VENDOR_NVIDIA,
            text::texts(extensions@).contains("VK_NV_optical_flow"@),
            forall|j: int| 0 <= j < i ==> #[trigger] found@[j],
        decreases 4 - i,
    {
        if !found[i] {
            let mut m = String::from_str(names[i]);
            m.append(" not found");
            assert(i == 0 || i == 1 || i == 2 || i == 3);
            assert(i > 0 ==> found@[0]);
            assert(i > 1 ==> found@[1]);
            assert(i > 2 ==> found@[2]);
            return Err(InterpolateError::InitFailed(m));
        }
        i = i + 1;
    }
    Ok(())
}

/// Width of the flow image, or its height for the height of a frame.
pub open spec fn flow_extent(n: u32) -> int {
    program::groups_of(n as int, GRID as int)
}

/// Number of flow vectors.
pub open spec fn flow_count(width: u32, height: u32) -> int {
    flow_extent(width) * flow_extent(height)
}

/// Whether the byte sizes can be represented.
pub open spec fn sizes_fit(width: u32, height: u32) -> bool {
    fsr2::frame_bytes(width, height) <= u32::MAX
}

proof fn lemma_flow_count(width: u32, height: u32)
    requires
        sizes_fit(width, height),
    ensures
        0 <= flow_extent(width) <= width,
        0 <= flow_extent(height) <= height,
        0 <= flow_count(width, height) <= width * height <= u32::MAX,
{
    let x = flow_extent(width);
    let y = flow_extent(height);
    program::law_groups_cover_all(width as int, GRID as int);
    program::law_groups_cover_all(height as int, GRID as int);
    assert(0 <= x * y <= width * height <= width * height * 4) by (nonlinear_arith)
        requires
            0 <= x <= width,
            0 <= y <= height,
    ;
}

/// An image for the optical flow engine.
pub open spec fn flow_image_of(width: u32, height: u32, format: Format) -> ImageRequest {
    ImageRequest { width, height, format, kind: ObjectKind::FlowImage }
}

/// The resources for frames of a size.
pub open spec fn spec_plan(width: u32, height: u32) -> PlanView {
    let frame = fsr2::frame_bytes(width, height);
    let count = flow_count(width, height);
    PlanView {
        buffers: seq![
            fsr2::device_buffer_of(count * 4, false, true),
            fsr2::device_buffer_of(frame, false, true),
            fsr2::device_buffer_of(frame, false, true),
            fsr2::device_buffer_of(count * 8, false, false),
            fsr2::device_buffer_of(frame, true, false),
            fsr2::staging_buffer_of(frame),
            fsr2::staging_buffer_of(frame),
            fsr2::staging_buffer_of(frame),
        ],
        images: seq![
            flow_image_of(width, height, Format::Rgba8),
            flow_image_of(width, height, Format::Rgba8),
            flow_image_of(
                flow_extent(width) as u32,
                flow_extent(height) as u32,
                Format::Rg16Float,
            ),
        ],
        bindings: seq![
            Binding { pass: CONVERT_PASS, binding: 0, buffer: FLOW_RAW },
            Binding { pass: CONVERT_PASS, binding: 1, buffer: MOTION },
            Binding { pass: WARP_PASS, binding: 0, buffer: FRAME_A },
            Binding { pass: WARP_PASS, binding: 1, buffer: FRAME_B },
            Binding { pass: WARP_PASS, binding: 2, buffer: MOTION },
            Binding { pass: WARP_PASS, binding: 3, buffer: OUTPUT },
        ],
    }
}

/// A barrier before the engine uses an image.
pub open spec fn before_flow_of(image: usize, from: Layout, src_access: Access) -> Step {
    Step::ImageBarrier {
        image,
        from,
        to: Layout::General,
        src_access,
        dst_access: Access::ShaderReadWrite,
        src_stage: Stage::Transfer,
        dst_stage: Stage::Compute,
    }
}

fn before_flow(image: usize, from: Layout, src_access: Access) -> (r: Step)
    ensures
        r == before_flow_of(image, from, src_access),
{
    Step::ImageBarrier {
        image,
        from,
        to: Layout::General,
        src_access,
        dst_access: Access::ShaderReadWrite,
        src_stage: Stage::Transfer,
        dst_stage: Stage::Compute,
    }
}

/// The commands up to the optical flow: both frames to the buffers of the warp
/// pass and to the images of the engine.
pub open spec fn spec_upload(width: u32, height: u32) -> Seq<Step> {
    let frame = fsr2::frame_bytes(width, height) as u64;
    seq![
        Step::CopyBuffer { src: STAGING_A, dst: FRAME_A, size: frame },
        Step::CopyBuffer { src: STAGING_B, dst: FRAME_B, size: frame },
        program::before_upload_of(IMAGE_A),
        program::before_upload_of(IMAGE_B),
        Step::CopyBufferToImage { buffer: STAGING_A, image: IMAGE_A, width, height },
        Step::CopyBufferToImage { buffer: STAGING_B, image: IMAGE_B, width, height },
        before_flow_of(IMAGE_A, Layout::TransferDst, Access::TransferWrite),
        before_flow_of(IMAGE_B, Layout::TransferDst, Access::TransferWrite),
        before_flow_of(FLOW_IMAGE, Layout::Undefined, Access::Nothing),
    ]
}

/// The commands from the optical flow on: flow, conversion of its vectors, warp
/// and blend, read back.
pub open spec fn spec_flow(width: u32, height: u32, t: u32) -> Seq<Step> {
    let frame = fsr2::frame_bytes(width, height) as u64;
    let count = flow_count(width, height) as u32;
    seq![
        Step::Sdk(SdkWork::OpticalFlow),
        program::before_download_of(FLOW_IMAGE),
        Step::CopyImageToBuffer {
            image: FLOW_IMAGE,
            buffer: FLOW_RAW,
            width: flow_extent(width) as u32,
            height: flow_extent(height) as u32,
        },
        program::copies_before_shaders_of(),
        Step::Dispatch {
            pass: CONVERT_PASS,
            constants: PassConstants::FlowConvert(FlowConvertPc { count }),
            x: program::groups_of(count as int, CONVERT_WORKGROUP as int) as u32,
            y: 1,
            z: 1,
        },
        program::shaders_before_shaders_of(),
        Step::Dispatch {
            pass: WARP_PASS,
            constants: PassConstants::Warp(
                PushConstants { width, height, t, block_size: GRID, search_radius: 0 },
            ),
            x: program::groups_of(width as int, fsr2::WORKGROUP as int) as u32,
            y: program::groups_of(height as int, fsr2::WORKGROUP as int) as u32,
            z: 1,
        },
        program::shaders_before_copies_of(),
        Step::CopyBuffer { src: OUTPUT, dst: READBACK, size: frame },
    ]
}

/// The commands for frames of a size.
pub open spec fn spec_program(width: u32, height: u32, t: u32) -> Seq<Step> {
    spec_upload(width, height) + spec_flow(width, height, t)
}

/// The resources for frames of a size.
#[must_use]
pub fn plan(width: u32, height: u32) -> (r: Plan)
    requires
        sizes_fit(width, height),
    ensures
        r@ == spec_plan(width, height),
{
    proof {
        lemma_flow_count(width, height);
    }
    let frame: u64 = fsr2::frame_size(width, height);
    let flow_w: u32 = program::groups(width, GRID);
    let flow_h: u32 = program::groups(height, GRID);
    let count: u64 = (flow_w * flow_h) as u64;
    let mut buffers: Vec<BufferRequest> = Vec::new();
    buffers.push(fsr2::device_buffer(count * 4, false, true));
    buffers.push(fsr2::device_buffer(frame, false, true));
    buffers.push(fsr2::device_buffer(frame, false, true));
    buffers.push(fsr2::device_buffer(count * 8, false, false));
    buffers.push(fsr2::device_buffer(frame, true, false));
    buffers.push(fsr2::staging_buffer(frame));
    buffers.push(fsr2::staging_buffer(frame));
    buffers.push(fsr2::staging_buffer(frame));
    let mut images: Vec<ImageRequest> = Vec::new();
    images.push(
        ImageRequest { width, height, format: Format::Rgba8, kind: ObjectKind::FlowImage },
    );
    images.push(
        ImageRequest { width, height, format: Format::Rgba8, kind: ObjectKind::FlowImage },
    );
    images.push(
        ImageRequest {
            width: flow_w,
            height: flow_h,
            format: Format::Rg16Float,
            kind: ObjectKind::FlowImage,
        },
    );
    let mut bindings: Vec<Binding> = Vec::new();
    bindings.push(Binding { pass: CONVERT_PASS, binding: 0, buffer: FLOW_RAW });
    bindings.push(Binding { pass: CONVERT_PASS, binding: 1, buffer: MOTION });
    bindings.push(Binding { pass: WARP_PASS, binding: 0, buffer: FRAME_A });
    bindings.push(Binding { pass: WARP_PASS, binding: 1, buffer: FRAME_B });
    bindings.push(Binding { pass: WARP_PASS, binding: 2, buffer: MOTION });
    bindings.push(Binding { pass: WARP_PASS, binding: 3, buffer: OUTPUT });
    let r = Plan { buffers, images, bindings };
    assert(r@ =~= spec_plan(width, height));
    r
}

/// The commands for frames of a size.
#[must_use]
pub fn program_for(width: u32, height: u32, t: u32) -> (r: Vec<Step>)
    requires
        sizes_fit(width, height),
    ensures
        r@ == spec_program(width, height, t),
{
    proof {
        lemma_flow_count(width, height);
    }
    let frame: u64 = fsr2::frame_size(width, height);
    let flow_w: u32 = program::groups(width, GRID);
    let flow_h: u32 = program::groups(height, GRID);
    let count: u32 = flow_w * flow_h;
    let mut r: Vec<Step> = Vec::new();
    // 1) Copy staging → frame buffers (for warp/blend compute pass).
    r.push(Step::CopyBuffer { src: STAGING_A, dst: FRAME_A, size: frame });
    r.push(Step::CopyBuffer { src: STAGING_B, dst: FRAME_B, size: frame });
    // 2) Transition input images so that they can be copied to.
    r.push(program::before_upload(IMAGE_A));
    r.push(program::before_upload(IMAGE_B));
    // 3) Copy staging buffers → input images.
    r.push(Step::CopyBufferToImage { buffer: STAGING_A, image: IMAGE_A, width, height });
    r.push(Step::CopyBufferToImage { buffer: STAGING_B, image: IMAGE_B, width, height });
    // 4) Transition all images for the engine.
    r.push(before_flow(IMAGE_A, Layout::TransferDst, Access::TransferWrite));
    r.push(before_flow(IMAGE_B, Layout::TransferDst, Access::TransferWrite));
    r.push(before_flow(FLOW_IMAGE, Layout::Undefined, Access::Nothing));
    assert(r@ =~= spec_upload(width, height));
    // 5) Execute hardware optical flow.
    r.push(Step::Sdk(SdkWork::OpticalFlow));
    // 6) Barrier: flow write → transfer read.
    r.push(program::before_download(FLOW_IMAGE));
    // 7) Copy the flow image (quarter resolution) → raw buffer.
    r.push(
        Step::CopyImageToBuffer {
            image: FLOW_IMAGE,
            buffer: FLOW_RAW,
            width: flow_w,
            height: flow_h,
        },
    );
    // 8) Barrier: transfer → compute.
    r.push(program::copies_before_shaders());
    // 9) Half-precision flow pairs → single-precision motion vectors.
    r.push(
        Step::Dispatch {
            pass: CONVERT_PASS,
            constants: PassConstants::FlowConvert(FlowConvertPc { count }),
            x: program::groups(count, CONVERT_WORKGROUP),
            y: 1,
            z: 1,
        },
    );
    // 10) Barrier: conversion write → warp/blend read.
    r.push(program::shaders_before_shaders());
    // 11) Warp + blend.
    r.push(
        Step::Dispatch {
            pass: WARP_PASS,
            constants: PassConstants::Warp(
                PushConstants { width, height, t, block_size: GRID, search_radius: 0 },
            ),
            x: program::groups(width, fsr2::WORKGROUP),
            y: program::groups(height, fsr2::WORKGROUP),
            z: 1,
        },
    );
    // 12) Barrier: compute → transfer.
    r.push(program::shaders_before_copies());
    // 13) Copy output → readback buffer.
    r.push(Step::CopyBuffer { src: OUTPUT, dst: READBACK, size: frame });
    assert(r@ =~= spec_program(width, height, t));
    r
}

/// What an image is to an optical flow session.
#[derive(Debug, Clone, Copy, PartialEq, Eq, Structural)]
pub enum SessionPoint {
    /// The frame that motion is found for.
    Input,
    /// The frame that it is compared with.
    Reference,
    /// Where the motion is written.
    FlowVector,
}

/// An image of an optical flow session.
#[derive(Debug, Clone, Copy, PartialEq, Eq, Structural)]
pub struct SessionBinding {
    pub point: SessionPoint,
    pub image: usize,
    /// The layout that it is used in.
    pub layout: Layout,
}

/// What an optical flow session is created with.
#[derive(Debug)]
pub struct SessionDescription {
    pub width: u32,
    pub height: u32,
    /// Format of the two frames.
    pub image_format: Format,
    /// Format of the motion.
    pub flow_vector_format: Format,
    /// Pixels on each side of the block that a flow vector stands for.
    pub grid: u32,
    /// The images, bound once the session was created.
    pub bindings: Vec<SessionBinding>,
}

/// The images of a session.
pub open spec fn spec_session_bindings() -> Seq<SessionBinding> {
    seq![
        SessionBinding { point: SessionPoint::Input, image: IMAGE_A, layout: Layout::General },
        SessionBinding { point: SessionPoint::Reference, image: IMAGE_B, layout: Layout::General },
        SessionBinding {
            point: SessionPoint::FlowVector,
            image: FLOW_IMAGE,
            layout: Layout::General,
        },
    ]
}

/// The optical flow session for frames of a size: at their resolution, from the
/// first frame to the second.
#[must_use]
pub fn session_description(width: u32, height: u32) -> (r: SessionDescription)
    ensures
        r.width == width,
        r.height == height,
        r.image_format == Format::Rgba8,
        r.flow_vector_format == Format::Rg16Float,
        r.grid == GRID,
        r.bindings@ == spec_session_bindings(),
{
    let mut bindings: Vec<SessionBinding> = Vec::new();
    bindings.push(
        SessionBinding { point: SessionPoint::Input, image: IMAGE_A, layout: Layout::General },
    );
    bindings.push(
        SessionBinding { point: SessionPoint::Reference, image: IMAGE_B, layout: Layout::General },
    );
    bindings.push(
        SessionBinding {
            point: SessionPoint::FlowVector,
            image: FLOW_IMAGE,
            layout: Layout::General,
        },
    );
    assert(bindings@ =~= spec_session_bindings());
    SessionDescription {
        width,
        height,
        image_format: Format::Rgba8,
        flow_vector_format: Format::Rg16Float,
        grid: GRID,
        bindings,
    }
}

/// NVIDIA optical flow frame interpolator using the `VK_NV_optical_flow`
/// extension.
#[derive(Debug)]
pub struct NvidiaOpticalFlowInterpolator {
    /// Dimensions that resources exist for.
    cached: Option<(u32, u32)>,
}

impl NvidiaOpticalFlowInterpolator {
    /// Dimensions that resources exist for.
    pub closed spec fn spec_cached(self) -> Option<(u32, u32)> {
        self.cached
    }

    /// The work for two frames.
    pub open spec fn spec_work(self, a: FrameView, b: FrameView, t: u32) -> WorkView {
        let width = a.width;
        let height = a.height;
        WorkView {
            cache: common::cache_action_for(self.spec_cached(), width, height),
            plan: spec_plan(width, height),
            uploads: common::frame_uploads_of(STAGING_A, a, STAGING_B, b),
            program: spec_program(width, height, t),
            read_size: fsr2::frame_bytes(width, height) as u64,
        }
    }

    /// Create a new NVIDIA optical flow interpolator.
    ///
    /// Requires a Turing or newer NVIDIA GPU with `VK_NV_optical_flow` support.
    ///
    /// # Errors
    ///
    /// The device cannot be used: see [`check_device`].
    pub fn new(vendor_id: u32, extensions: &Vec<String>, found: &Vec<bool>) -> (r: Result<
        NvidiaOpticalFlowInterpolator,
        InterpolateError,
    >)
        requires
            found@.len() == 4,
        ensures
            match device_refusal(vendor_id, text::texts(extensions@), found@) {
                Some(why) => r matches Err(InterpolateError::InitFailed(m)) && m@ == why,
                None => r matches Ok(i) && i.spec_cached() is None,
            },
    {
        match check_device(vendor_id, extensions, found) {
            Ok(_) => Ok(NvidiaOpticalFlowInterpolator { cached: None }),
            Err(e) => Err(e),
        }
    }

    /// The work to interpolate between two frames.
    ///
    /// # Errors
    ///
    /// The factor is out of range, or the frames differ in their dimensions.
    pub fn begin<'a>(&self, a: &'a GpuFrame, b: &'a GpuFrame, t: u32) -> (r: Result<
        GpuWork<'a>,
        InterpolateError,
    >)
        requires
            common::refusal(a@, b@, t) is None ==> sizes_fit(a.width, a.height),
        ensures
            match common::refusal(a@, b@, t) {
                Some(e) => r == Err::<GpuWork, _>(e),
                None => r matches Ok(work) && work@ == self.spec_work(a@, b@, t),
            },
    {
        match common::check_request(a, b, t) {
            Ok(_) => {},
            Err(e) => {
                return Err(e);
            },
        }
        let work = GpuWork {
            cache: common::cache_action(self.cached, a.width, a.height),
            plan: plan(a.width, a.height),
            uploads: common::frame_uploads(STAGING_A, a, STAGING_B, b),
            program: program_for(a.width, a.height, t),
            read_size: fsr2::frame_size(a.width, a.height),
        };
        assert(work@ =~= self.spec_work(a@, b@, t));
        Ok(work)
    }

    /// Note that resources exist for these dimensions, or that none exist.
    pub fn set_cached(&mut self, dimensions: Option<(u32, u32)>)
        ensures
            final(self).spec_cached() == dimensions,
    {
        self.cached = dimensions;
    }

    /// The frame made of pixels that the GPU handed back.
    pub fn finish(a: &GpuFrame, b: &GpuFrame, t: u32, data: Vec<u8>) -> (r: GpuFrame)
        requires
            common::refusal(a@, b@, t) is None,
            blend::timestamp_fits(a@, b@, t),
        ensures
            r@ == common::frame_of(a@, b@, t, data@),
    {
        common::finished_frame(a, b, t, data)
    }

    /// Hardware optical flow is very fast (~1ms), warp/blend adds ~1ms: 2.0, as
    /// IEEE 754 single-precision bits.
    #[must_use]
    pub fn latency_ms(&self) -> (r: u32)
        ensures
            r == 0x4000_0000,
    {
        0x4000_0000
    }

    /// Human-readable name of this backend.
    #[must_use]
    pub fn name(&self) -> (r: &'static str)
        ensures
            r@ == "nvidia-optical-flow"@,
    {
        "nvidia-optical-flow"
    }
}

proof fn lemma_upload_is_sound(width: u32, height: u32)
    requires
        sizes_fit(width, height),
    ensures
        program::sound(
            spec_plan(width, height),
            program::all_in(spec_plan(width, height), Layout::Undefined),
            spec_upload(width, height),
        ),
        program::layouts_after(
            program::all_in(spec_plan(width, height), Layout::Undefined),
            spec_upload(width, height),
            9,
        ) == program::all_in(spec_plan(width, height), Layout::General),
{
    lemma_flow_count(width, height);
    let p = spec_plan(width, height);
    let s = spec_upload(width, height);
    let start = program::all_in(p, Layout::Undefined);
    let u = Layout::Undefined;
    let d = Layout::TransferDst;
    let g = Layout::General;
    reveal(program::sound);
    reveal_with_fuel(program::layouts_after, 10);
    assert(program::layouts_after(start, s, 3) =~= seq![d, u, u]);
    assert(program::layouts_after(start, s, 4) =~= seq![d, d, u]);
    assert(program::layouts_after(start, s, 7) =~= seq![g, d, u]);
    assert(program::layouts_after(start, s, 8) =~= seq![g, g, u]);
    assert(program::layouts_after(start, s, 9) =~= seq![g, g, g]);
    assert(program::all_in(p, g) =~= seq![g, g, g]);
}

proof fn lemma_flow_is_sound(width: u32, height: u32, t: u32)
    requires
        sizes_fit(width, height),
    ensures
        program::sound(
            spec_plan(width, height),
            program::all_in(spec_plan(width, height), Layout::General),
            spec_flow(width, height, t),
        ),
{
    lemma_flow_count(width, height);
    let p = spec_plan(width, height);
    let s = spec_flow(width, height, t);
    let start = program::all_in(p, Layout::General);
    let g = Layout::General;
    let d = Layout::TransferSrc;
    reveal(program::sound);
    reveal_with_fuel(program::layouts_after, 10);
    assert(start =~= seq![g, g, g]);
    assert(program::layouts_after(start, s, 2) =~= seq![g, g, d]);
    assert(program::layouts_after(start, s, 8) =~= seq![g, g, d]);
}

/// The commands are sound on the resources.
pub proof fn law_program_is_sound(width: u32, height: u32, t: u32)
    requires
        sizes_fit(width, height),
    ensures
        program::sound(
            spec_plan(width, height),
            program::all_in(spec_plan(width, height), Layout::Undefined),
            spec_program(width, height, t),
        ),
{
    lemma_upload_is_sound(width, height);
    lemma_flow_is_sound(width, height, t);
    program::law_programs_compose(
        spec_plan(width, height),
        program::all_in(spec_plan(width, height), Layout::Undefined),
        spec_upload(width, height),
        spec_flow(width, height, t),
    );
}

/// Every flow vector gets a thread of the conversion pass, and every block of the
/// frame has a flow vector.
pub proof fn law_flow_covers_the_frame(width: u32, height: u32)
    requires
        sizes_fit(width, height),
    ensures
        flow_extent(width) * GRID >= width,
        flow_extent(height) * GRID >= height,
        program::groups_of(flow_count(width, height), CONVERT_WORKGROUP as int) * CONVERT_WORKGROUP
            >= flow_count(width, height),
{
    lemma_flow_count(width, height);
    program::law_groups_cover_all(width as int, GRID as int);
    program::law_groups_cover_all(height as int, GRID as int);
    program::law_groups_cover_all(flow_count(width, height), CONVERT_WORKGROUP as int);
}

/// The descriptor pool has room for the sets of both passes.
pub proof fn law_pool_is_large_enough(width: u32, height: u32)
    ensures
        spec_pass_layouts().len() <= POOL_SETS,
        spec_pass_layouts()[0].bindings + spec_pass_layouts()[1].bindings <= POOL_DESCRIPTORS,
        spec_plan(width, height).bindings.len() == spec_pass_layouts()[0].bindings
            + spec_pass_layouts()[1].bindings,
{
}

/// The frames are written to two different buffers, in memory that the CPU can
/// write.
pub proof fn law_uploads_reach_host_memory(width: u32, height: u32, a: FrameView, b: FrameView)
    ensures
        ({
            let uploads = common::frame_uploads_of(STAGING_A, a, STAGING_B, b);
            let buffers = spec_plan(width, height).buffers;
            &&& uploads[0].buffer != uploads[1].buffer
            &&& buffers[uploads[0].buffer as int].memory == MemoryKind::Host
            &&& buffers[uploads[1].buffer as int].memory == MemoryKind::Host
        }),
{
}

/// The frame made of the bytes that were asked for is complete, whatever sizes
/// earlier calls had: it has the size of the two frames, and four bytes for each
/// of its pixels.
pub proof fn law_finished_frame_is_complete(
    interpolator: NvidiaOpticalFlowInterpolator,
    a: FrameView,
    b: FrameView,
    t: u32,
    data: Seq<u8>,
)
    requires
        common::refusal(a, b, t) is None,
        sizes_fit(a.width, a.height),
        data.len() == interpolator.spec_work(a, b, t).read_size,
    ensures
        ({
            let f = common::frame_of(a, b, t, data);
            &&& f.width == a.width
            &&& f.height == a.height
            &&& f.stride == a.stride
            &&& f.data.len() == f.width * f.height * 4
        }),
{
    assert(0 <= a.width * a.height * 4) by (nonlinear_arith)
        requires
            a.width >= 0,
            a.height >= 0,
    ;
}

/// The images of a session are those that the plan makes, in the formats that the
/// session is created with; and when the engine runs, each is in the layout that it
/// was bound in.
pub proof fn law_session_fits_the_images(width: u32, height: u32)
    requires
        sizes_fit(width, height),
    ensures
        ({
            let images = spec_plan(width, height).images;
            let bindings = spec_session_bindings();
            &&& images[bindings[0].image as int].format == Format::Rgba8
            &&& images[bindings[0].image as int].width == width
            &&& images[bindings[0].image as int].height == height
            &&& images[bindings[1].image as int].format == Format::Rgba8
            &&& images[bindings[1].image as int].width == width
            &&& images[bindings[1].image as int].height == height
            &&& images[bindings[2].image as int].format == Format::Rg16Float
            &&& images[bindings[2].image as int].width == flow_extent(width)
            &&& images[bindings[2].image as int].height == flow_extent(height)
        }),
        forall|i: int|
            0 <= i < 3 ==> (#[trigger] spec_session_bindings()[i]).layout
                == program::layouts_after(
                program::all_in(spec_plan(width, height), Layout::Undefined),
                spec_upload(width, height),
                9,
            )[spec_session_bindings()[i].image as int],
{
    lemma_upload_is_sound(width, height);
    lemma_flow_count(width, height);
}

/// What runs the commands.
pub open spec fn machine(width: u32, height: u32) -> Machine {
    Machine {
        plan: spec_plan(width, height),
        pass_buffers: seq![2nat, 4nat],
        discards: true,
        overlaps: true,
    }
}

proof fn lemma_bindings(width: u32, height: u32)
    ensures
        ({
            let m = machine(width, height);
            &&& m.bound(CONVERT_PASS, 0) == FLOW_RAW
            &&& m.bound(CONVERT_PASS, 1) == MOTION
            &&& m.bound(WARP_PASS, 0) == FRAME_A
            &&& m.bound(WARP_PASS, 1) == FRAME_B
            &&& m.bound(WARP_PASS, 2) == MOTION
            &&& m.bound(WARP_PASS, 3) == OUTPUT
        }),
{
    let m = machine(width, height);
    flow::lemma_bound(m, CONVERT_PASS, 0, 0);
    flow::lemma_bound(m, CONVERT_PASS, 1, 1);
    flow::lemma_bound(m, WARP_PASS, 0, 2);
    flow::lemma_bound(m, WARP_PASS, 1, 3);
    flow::lemma_bound(m, WARP_PASS, 2, 4);
    flow::lemma_bound(m, WARP_PASS, 3, 5);
}

/// What the engine makes of the two frames.
pub open spec fn flow_between(a: FrameView, b: FrameView) -> Content {
    Content::Worked {
        work: SdkWork::OpticalFlow,
        image: 2,
        inputs: seq![Content::Written(a.data), Content::Written(b.data)],
    }
}

/// What the conversion pass makes of the flow.
pub open spec fn motion_between(a: FrameView, b: FrameView) -> Content {
    Content::Shaded {
        pass: CONVERT_PASS,
        constants: PassConstants::FlowConvert(
            FlowConvertPc { count: flow_count(a.width, a.height) as u32 },
        ),
        inputs: seq![flow_between(a, b)],
    }
}

proof fn lemma_frames_are_uploaded(a: FrameView, b: FrameView, t: u32)
    requires
        sizes_fit(a.width, a.height),
        a.data.len() == a.width * a.height * 4,
        b.data.len() == a.width * a.height * 4,
    ensures
        ({
            let m = machine(a.width, a.height);
            let start = common::contents_after_uploads(
                m,
                m.blank(),
                common::frame_uploads_of(STAGING_A, a, STAGING_B, b),
            );
            let now = m.after(start, spec_program(a.width, a.height, t), 9);
            &&& now.buffers.len() == 8
            &&& now.images.len() == 3
            &&& now.buffers[FRAME_A as int] == Cell::fresh(
                Content::Written(a.data),
                Access::TransferWrite,
            )
            &&& now.buffers[FRAME_B as int] == Cell::fresh(
                Content::Written(b.data),
                Access::TransferWrite,
            )
            &&& m.shaded(now.images[IMAGE_A as int]) == Content::Written(a.data)
            &&& m.shaded(now.images[IMAGE_B as int]) == Content::Written(b.data)
        }),
{
    let m = machine(a.width, a.height);
    let first = Content::Written(a.data);
    let second = Content::Written(b.data);
    assert(0 <= a.width * a.height * 4) by (nonlinear_arith)
        requires
            a.width >= 0,
            a.height >= 0,
    ;
    let start = common::contents_after_uploads(
        m,
        m.blank(),
        common::frame_uploads_of(STAGING_A, a, STAGING_B, b),
    );
    common::law_both_frames_are_uploaded(m, m.blank(), STAGING_A, a, STAGING_B, b, 0);
    let steps = spec_program(a.width, a.height, t);
    assert(m.after(start, steps, 0) == start);
    let m1 = m.after(start, steps, 1);
    assert(m1.buffers[FRAME_A as int].content == first);
    let m2 = m.after(start, steps, 2);
    assert(m2.buffers[FRAME_B as int].content == second);
    let m3 = m.after(start, steps, 3);
    let m4 = m.after(start, steps, 4);
    assert(m4.buffers == m2.buffers);
    let m5 = m.after(start, steps, 5);
    assert(m5.images[IMAGE_A as int].content == first);
    let m6 = m.after(start, steps, 6);
    assert(m6.images[IMAGE_B as int].content == second);
    let m7 = m.after(start, steps, 7);
    let m8 = m.after(start, steps, 8);
    let m9 = m.after(start, steps, 9);
    assert(m9.buffers == m2.buffers);
}

/// Two tightly packed frames reach the engine and the shaders, and what is made of them
/// reaches the CPU. When the engine runs, the image that is bound as its input
/// holds the pixels of the first frame, and the one bound as its reference those of
/// the second. When the conversion pass runs, it finds the flow of the engine, and
/// its constants carry the number of vectors. When the warp pass runs, it finds the
/// first frame, the second frame and the converted flow, and its constants carry
/// the size of the frames, the factor and the grid. What is read back is what the
/// warp pass made.
pub proof fn law_frames_reach_the_engine(
    interpolator: NvidiaOpticalFlowInterpolator,
    a: FrameView,
    b: FrameView,
    t: u32,
    n: int,
    i: int,
)
    requires
        common::refusal(a, b, t) is None,
        sizes_fit(a.width, a.height),
        a.data.len() == a.width * a.height * 4,
        b.data.len() == b.width * b.height * 4,
    ensures
        ({
            let work = interpolator.spec_work(a, b, t);
            let m = Machine {
                plan: work.plan,
                pass_buffers: seq![2nat, 4nat],
                discards: true,
                overlaps: true,
            };
            let start = common::contents_after_uploads(m, m.blank(), work.uploads);
            let now = m.after(start, work.program, n);
            let first = Content::Written(a.data);
            let second = Content::Written(b.data);
            let flow = flow_between(a, b);
            let motion = motion_between(a, b);
            let constants = PassConstants::Warp(
                PushConstants {
                    width: a.width,
                    height: a.height,
                    t,
                    block_size: 4,
                    search_radius: 0,
                },
            );
            let binding = spec_session_bindings()[i];
            &&& 0 <= n < work.program.len() && work.program[n] is Sdk && 0 <= i < 3 ==> {
                &&& work.program[n] == Step::Sdk(SdkWork::OpticalFlow)
                &&& binding.point == SessionPoint::Input ==> m.shaded(
                    now.images[binding.image as int],
                ) == first
                &&& binding.point == SessionPoint::Reference ==> m.shaded(
                    now.images[binding.image as int],
                ) == second
                &&& binding.point == SessionPoint::FlowVector ==> binding.image == 2
            }
            &&& 0 <= n < work.program.len() && work.program[n] is Dispatch ==> {
                let pass = work.program[n]->pass;
                ||| pass == CONVERT_PASS && m.inputs(now, pass) == seq![flow]
                    && work.program[n]->constants == motion->constants
                ||| pass == WARP_PASS && m.inputs(now, pass) == seq![first, second, motion]
                    && work.program[n]->constants == constants
            }
            &&& m.done(start, work.program).buffers[READBACK as int].content
                == (Content::Shaded {
                pass: WARP_PASS,
                constants,
                inputs: seq![first, second, motion],
            })
            &&& work.read_size == work.plan.buffers[READBACK as int].size
            &&& spec_session_bindings().len() == 3
            &&& spec_session_bindings()[0].point == SessionPoint::Input
            &&& spec_session_bindings()[1].point == SessionPoint::Reference
            &&& spec_session_bindings()[2].point == SessionPoint::FlowVector
        }),
{
    let work = interpolator.spec_work(a, b, t);
    let m = machine(a.width, a.height);
    let start = common::contents_after_uploads(m, m.blank(), work.uploads);
    let steps = work.program;
    let first = Content::Written(a.data);
    let second = Content::Written(b.data);
    let motion = motion_between(a, b);
    lemma_frames_are_uploaded(a, b, t);
    lemma_flow_count(a.width, a.height);
    lemma_bindings(a.width, a.height);
    let w = flow_extent(a.width);
    let h = flow_extent(a.height);
    assert(w * h * 4 == flow_count(a.width, a.height) * 4);
    let m9 = m.after(start, steps, 9);
    assert(steps[9] == spec_flow(a.width, a.height, t)[0]);
    let m10 = m.after(start, steps, 10);
    assert(m.worked(m9, SdkWork::OpticalFlow, 2).content->Worked_inputs =~= seq![first, second]);
    assert(m10.images[2].content == flow_between(a, b));
    assert(steps[10] == spec_flow(a.width, a.height, t)[1]);
    let m11 = m.after(start, steps, 11);
    assert(m.copied(m11.images[2]) == flow_between(a, b));
    assert(steps[11] == spec_flow(a.width, a.height, t)[2]);
    let m12 = m.after(start, steps, 12);
    assert(m12.buffers[FLOW_RAW as int].content == flow_between(a, b));
    assert(steps[12] == spec_flow(a.width, a.height, t)[3]);
    let m13 = m.after(start, steps, 13);
    assert(m.inputs(m13, CONVERT_PASS) =~= seq![flow_between(a, b)]);
    assert(steps[13] == spec_flow(a.width, a.height, t)[4]);
    let m14 = m.after(start, steps, 14);
    assert(m14.buffers[MOTION as int].content == motion);
    assert(steps[14] == spec_flow(a.width, a.height, t)[5]);
    let m15 = m.after(start, steps, 15);
    assert(m.inputs(m15, WARP_PASS) =~= seq![first, second, motion]);
    assert(steps[15] == spec_flow(a.width, a.height, t)[6]);
    let m16 = m.after(start, steps, 16);
    assert(steps[16] == spec_flow(a.width, a.height, t)[7]);
    let m17 = m.after(start, steps, 17);
    assert(steps[17] == spec_flow(a.width, a.height, t)[8]);
    let m18 = m.after(start, steps, 18);
    assert(m18.buffers[READBACK as int].content == m16.buffers[OUTPUT as int].content);
    assert(forall|k: int| 0 <= k < 9 ==> steps[k] == spec_upload(a.width, a.height)[k]);
}

/// The grids of the work take in everything and no more: every vector of the flow
/// has a thread of the conversion pass, every pixel one of the warp pass, and no
/// workgroup is without one.
pub proof fn law_dispatches_cover_the_frame(
    interpolator: NvidiaOpticalFlowInterpolator,
    a: FrameView,
    b: FrameView,
    t: u32,
    n: int,
)
    requires
        sizes_fit(a.width, a.height),
        0 <= n < interpolator.spec_work(a, b, t).program.len(),
        interpolator.spec_work(a, b, t).program[n] is Dispatch,
    ensures
        ({
            let step = interpolator.spec_work(a, b, t).program[n];
            let x = step->Dispatch_x as int;
            let y = step->Dispatch_y as int;
            let count = program::groups_of(a.width as int, 4) * program::groups_of(
                a.height as int,
                4,
            );
            &&& step->pass == CONVERT_PASS ==> {
                &&& x * 256 >= count
                &&& x > 0 ==> (x - 1) * 256 < count
                &&& y == 1
                &&& step->constants == PassConstants::FlowConvert(
                    FlowConvertPc { count: count as u32 },
                )
            }
            &&& step->pass != CONVERT_PASS ==> {
                &&& x * 16 >= a.width
                &&& y * 16 >= a.height
                &&& x > 0 ==> (x - 1) * 16 < a.width
                &&& y > 0 ==> (y - 1) * 16 < a.height
            }
            &&& step->z == 1
        }),
{
    let steps = interpolator.spec_work(a, b, t).program;
    lemma_flow_count(a.width, a.height);
    program::law_groups_cover_all(flow_count(a.width, a.height), 256);
    program::law_groups_cover_all(a.width as int, 16);
    program::law_groups_cover_all(a.height as int, 16);
    if n >= 9 {
        assert(steps[n] == spec_flow(a.width, a.height, t)[n - 9]);
    } else {
        assert(steps[n] == spec_upload(a.width, a.height)[n]);
    }
}

/// A device is taken exactly where it is by NVIDIA, has the extension and all four entry
/// points. Otherwise the first thing that is missing is named.
pub proof fn law_device_has_all_that_is_needed(
    vendor_id: u32,
    extensions: Seq<Seq<char>>,
    found: Seq<bool>,
    i: int,
)
    requires
        found.len() == 4,
    ensures
        ({
            let refusal = device_refusal(vendor_id, extensions, found);
            let nvidia = vendor_id == 0x10de;
            let listed = extensions.contains("VK_NV_optical_flow"@);
            &&& refusal is None <==> nvidia && listed && found[0] && found[1] && found[2] && found[3]
            &&& nvidia && listed && 0 <= i < 4 && !found[i] && (forall|j: int|
                0 <= j < i ==> #[trigger] found[j]) ==> refusal == Some(
                spec_entry_points()[i] + " not found"@,
            )
        }),
{
    if 0 <= i < 4 {
        assert(i > 0 && (forall|j: int| 0 <= j < i ==> #[trigger] found[j]) ==> found[0]);
        assert(i > 1 && (forall|j: int| 0 <= j < i ==> #[trigger] found[j]) ==> found[1]);
        assert(i > 2 && (forall|j: int| 0 <= j < i ==> #[trigger] found[j]) ==> found[2]);
    }
}

/// The layout of a pass has as many buffers as are bound to it, with the numbers from 0,
/// and as many bytes of constants as it is dispatched with.
pub proof fn law_layouts_fit_the_passes(width: u32, height: u32, t: u32, n: int, i: int)
    ensures
        ({
            let step = spec_program(width, height, t)[n];
            let bindings = spec_plan(width, height).bindings;
            &&& 0 <= n < spec_program(width, height, t).len() && step is Dispatch ==> {
                &&& step->pass < spec_pass_layouts().len()
                &&& spec_pass_layouts()[step->pass as int].constant_bytes
                    == step->constants.spec_bytes().len()
            }
            &&& 0 <= i < bindings.len() ==> {
                &&& bindings[i].pass < spec_pass_layouts().len()
                &&& bindings[i].binding < spec_pass_layouts()[bindings[i].pass as int].bindings
            }
        }),
{
    let steps = spec_program(width, height, t);
    if 9 <= n < steps.len() {
        assert(steps[n] == spec_flow(width, height, t)[n - 9]);
        if steps[n] is Dispatch {
            program::law_constants_are_words(
                PushConstants { width, height, t, block_size: GRID, search_radius: 0 },
                FlowConvertPc { count: flow_count(width, height) as u32 },
            );
        }
    } else if 0 <= n < 9 {
        assert(steps[n] == spec_upload(width, height)[n]);
    }
}

/// What is read back is in memory that the CPU can reach, and so are the two buffers that
/// the frames are written to. The images have the views that the engine works on.
pub proof fn law_results_can_be_read(width: u32, height: u32, i: int)
    ensures
        ({
            let plan = spec_plan(width, height);
            &&& memory::for_cpu(plan.buffers[READBACK as int].memory)
            &&& memory::for_cpu(plan.buffers[STAGING_A as int].memory)
            &&& memory::for_cpu(plan.buffers[STAGING_B as int].memory)
            &&& 0 <= i < plan.images.len() ==> memory::view_needed(plan.images[i].kind)
        }),
{
}

} // verus!
