//! AMD FSR3 Frame Generation backend for Linux/Wayland (Vulkan).
//!
//! ```text
//! Init:
//!   ffxGetInterfaceVK()          → Vulkan backend function table
//!   ffxFrameInterpolationContextCreate() → FG context
//!   ffxFrameInterpolationGetSharedResourceDescriptions() → shared resources
//!
//! Per frame:
//!   upload frame → VkImage
//!   ffxFrameInterpolationPrepare()  → depth + motion vectors + jitter
//!   ffxFrameInterpolationDispatch() → generate interpolated frame
//!   read back → GpuFrame
//! ```

use vstd::prelude::*;

use crate::interpolate::backends::ffx_fg::{
    FfxDimensions2D, FfxFrameInterpolationContextDescription,
    FfxFrameInterpolationSharedResourceDescriptions, FfxInterface, FfxRect2D,
    FfxResourceDescription, FfxResourceUse, FFX_BACKBUFFER_TRANSFER_FUNCTION_SRGB,
    FFX_FRAMEINTERPOLATION_DISPATCH_DRAW_DEBUG_TEAR_LINES,
    FFX_FRAMEINTERPOLATION_ENABLE_DEPTH_INFINITE, FFX_FRAMEINTERPOLATION_ENABLE_DEPTH_INVERTED,
    FFX_FRAMEINTERPOLATION_ENABLE_HDR_COLOR_INPUT,
    FFX_FRAMEINTERPOLATION_ENABLE_JITTER_MOTION_VECTORS, FFX_RESOURCE_STATE_COMPUTE_READ,
    FFX_RESOURCE_STATE_UNORDERED_ACCESS, FFX_RESOURCE_USAGE_UAV,
    FFX_SURFACE_FORMAT_R16G16B16A16_FLOAT, FFX_SURFACE_FORMAT_R16G16_FLOAT,
    FFX_SURFACE_FORMAT_R32_FLOAT, FFX_SURFACE_FORMAT_R8G8B8A8_UNORM,
};
use crate::interpolate::backends::common;
use crate::interpolate::backends::common::{ImageUpload, ImageUploadView, UploadData};
use crate::interpolate::backends::ffx_fg;
use crate::interpolate::backends::fsr2_native;
use crate::interpolate::error::InterpolateError;
use crate::interpolate::frame::{FrameView, GpuFrame};
use crate::proto::layout;
use crate::vulkan::flow::{Cell, Content, Contents, Machine};
use crate::vulkan::memory;
use crate::vulkan::memory::{MemoryKind, ObjectKind};
use crate::vulkan::program;
use crate::vulkan::program::{
    Access, BufferRequest, Format, ImageRequest, Layout, Plan, PlanView, SdkWork, Stage, Step,
};

verus! {

pub const INPUT_COLOR: usize = 0;

pub const INPUT_DEPTH: usize = 1;

pub const INPUT_MV: usize = 2;

pub const OUTPUT_COLOR: usize = 3;

pub const DILATED_DEPTH: usize = 4;

pub const DILATED_MV: usize = 5;

pub const OPTICAL_FLOW_VECTOR: usize = 6;

pub const OPTICAL_FLOW_SCD: usize = 7;

/// Depth of the previous frame, as the SDK reconstructs it.
pub const RECONSTRUCTED_PREV_DEPTH: usize = 0;

/// Buffer that the result is read from.
pub const STAGING: usize = 1;

/// Buffer that an image is filled from; it lives for one upload.
pub const UPLOAD: usize = 2;

/// Pixels on each side of a block of the optical flow.
pub const OPTICAL_FLOW_BLOCK_SIZE: u32 = 8;

/// An image for frame generation.
pub open spec fn compute_image_of(width: u32, height: u32, format: Format) -> ImageRequest {
    ImageRequest { width, height, format, kind: ObjectKind::ComputeImage }
}

fn compute_image(width: u32, height: u32, format: Format) -> (r: ImageRequest)
    ensures
        r == compute_image_of(width, height, format),
{
    ImageRequest { width, height, format, kind: ObjectKind::ComputeImage }
}

/// Render and display resolutions.
#[derive(Debug, Clone, Copy, PartialEq, Eq, Structural)]
pub struct Sizes {
    pub render_w: u32,
    pub render_h: u32,
    pub display_w: u32,
    pub display_h: u32,
}

impl Sizes {
    /// Number of pixels at render resolution.
    pub open spec fn render_pixels(self) -> int {
        self.render_w * self.render_h
    }

    /// Number of pixels at display resolution.
    pub open spec fn display_pixels(self) -> int {
        self.display_w * self.display_h
    }

    /// Whether the numbers of bytes and elements can be represented.
    pub open spec fn fit(self) -> bool {
        &&& self.render_pixels() <= u32::MAX
        &&& self.render_pixels() * 4 <= usize::MAX
        &&& self.display_pixels() * 8 <= u64::MAX
        &&& self.display_pixels() * 8 <= usize::MAX
        &&& self.display_w * 4 <= u32::MAX
    }
}

/// Whether the size of the reconstructed depth can be represented.
pub open spec fn shared_fit(shared: FfxFrameInterpolationSharedResourceDescriptions) -> bool {
    shared.reconstructed_prev_nearest_depth.width
        * shared.reconstructed_prev_nearest_depth.height * 4 <= u64::MAX
}

/// The resources that live as long as the backend.
pub open spec fn spec_plan(
    s: Sizes,
    shared: FfxFrameInterpolationSharedResourceDescriptions,
) -> PlanView {
    PlanView {
        buffers: seq![
            BufferRequest {
                size: (shared.reconstructed_prev_nearest_depth.width
                    * shared.reconstructed_prev_nearest_depth.height * 4) as u64,
                storage: true,
                transfer_src: false,
                transfer_dst: true,
                memory: MemoryKind::Device,
            },
            BufferRequest {
                size: (s.display_pixels() * 8) as u64,
                storage: false,
                transfer_src: false,
                transfer_dst: true,
                memory: MemoryKind::HostCached,
            },
        ],
        images: seq![
            compute_image_of(s.render_w, s.render_h, Format::Rgba16Float),
            compute_image_of(s.render_w, s.render_h, Format::R32Float),
            compute_image_of(s.render_w, s.render_h, Format::Rg16Float),
            compute_image_of(s.display_w, s.display_h, Format::Rgba16Float),
            compute_image_of(
                shared.dilated_depth.width,
                shared.dilated_depth.height,
                Format::R32Float,
            ),
            compute_image_of(
                shared.dilated_motion_vectors.width,
                shared.dilated_motion_vectors.height,
                Format::Rg16Float,
            ),
            compute_image_of(s.render_w, s.render_h, Format::Rg16Float),
            compute_image_of(s.render_w, s.render_h, Format::R8),
        ],
        bindings: seq![],
    }
}

/// The buffer that an image is filled from.
pub open spec fn upload_buffer_of(size: int) -> BufferRequest {
    BufferRequest {
        size: size as u64,
        storage: false,
        transfer_src: true,
        transfer_dst: false,
        memory: MemoryKind::Host,
    }
}

/// The resources while an image is filled from `size` bytes.
pub open spec fn with_upload(plan: PlanView, size: int) -> PlanView {
    PlanView { buffers: plan.buffers.push(upload_buffer_of(size)), ..plan }
}

/// The commands that fill the top left of an image.
pub open spec fn spec_upload(image: usize, width: u32, height: u32) -> Seq<Step> {
    seq![
        program::before_upload_of(image),
        Step::CopyBufferToImage { buffer: UPLOAD, image, width, height },
    ]
}

/// A barrier before a pass of the SDK uses an image.
pub open spec fn before_pass_of(image: usize, dst_access: Access) -> Step {
    Step::ImageBarrier {
        image,
        from: Layout::Undefined,
        to: Layout::General,
        src_access: Access::Nothing,
        dst_access,
        src_stage: Stage::Top,
        dst_stage: Stage::Compute,
    }
}

fn before_pass(image: usize, dst_access: Access) -> (r: Step)
    ensures
        r == before_pass_of(image, dst_access),
{
    Step::ImageBarrier {
        image,
        from: Layout::Undefined,
        to: Layout::General,
        src_access: Access::Nothing,
        dst_access,
        src_stage: Stage::Top,
        dst_stage: Stage::Compute,
    }
}

/// The commands before the passes of the SDK: every image to the layout that
/// they expect.
pub open spec fn spec_transitions() -> Seq<Step> {
    seq![
        before_pass_of(INPUT_COLOR, Access::ShaderRead),
        before_pass_of(INPUT_DEPTH, Access::ShaderRead),
        before_pass_of(INPUT_MV, Access::ShaderRead),
        before_pass_of(DILATED_DEPTH, Access::ShaderReadWrite),
        before_pass_of(DILATED_MV, Access::ShaderReadWrite),
        before_pass_of(OPTICAL_FLOW_VECTOR, Access::ShaderReadWrite),
        before_pass_of(OPTICAL_FLOW_SCD, Access::ShaderReadWrite),
        before_pass_of(OUTPUT_COLOR, Access::ShaderWrite),
    ]
}

/// The passes of the SDK, and the copy of their result.
pub open spec fn spec_passes(s: Sizes) -> Seq<Step> {
    seq![
        Step::Sdk(SdkWork::Prepare),
        Step::Sdk(SdkWork::Generate),
        program::before_download_of(OUTPUT_COLOR),
        Step::CopyImageToBuffer {
            image: OUTPUT_COLOR,
            buffer: STAGING,
            width: s.display_w,
            height: s.display_h,
        },
    ]
}

/// The commands that generate a frame.
pub open spec fn spec_generate(s: Sizes) -> Seq<Step> {
    spec_transitions() + spec_passes(s)
}

/// The `i`-th channel of a picture of `width` pixels in rows of `stride` bytes.
pub open spec fn channel(data: Seq<u8>, width: u32, stride: u32, i: int) -> u8 {
    data[(i / (width * 4)) * stride + i % (width * 4)]
}

/// A picture with 8 bits per channel as one with 16 bits per channel, tightly
/// packed. `table` holds the 16-bit number of every 8-bit one.
pub open spec fn widened(
    data: Seq<u8>,
    width: u32,
    height: u32,
    stride: u32,
    table: Seq<u16>,
) -> Seq<u8> {
    Seq::new(
        (width * 8 * height) as nat,
        |j: int|
            {
                let half = table[channel(data, width, stride, j / 2) as int];
                if j % 2 == 0 {
                    (half % 256) as u8
                } else {
                    (half / 256) as u8
                }
            },
    )
}

/// A tightly packed picture with 16 bits per channel as one with 8 bits per
/// channel. `table` holds the 8-bit number of every 16-bit one.
pub open spec fn narrowed(data: Seq<u8>, width: u32, height: u32, table: Seq<u8>) -> Seq<u8> {
    Seq::new(
        (width * 4 * height) as nat,
        |i: int| table[data[2 * i] + 256 * data[2 * i + 1]],
    )
}

/// Whether a picture has all its rows, the last one without padding.
pub open spec fn has_rows(len: int, width: u32, height: u32, stride: u32) -> bool {
    width == 0 || height == 0 || (height - 1) * stride + width * 4 <= len
}

proof fn lemma_channel_place(i: int, width: int, height: int, stride: int, len: int)
    requires
        0 <= i < width * 4 * height,
        0 <= width,
        0 <= height,
        0 <= stride,
        width == 0 || height == 0 || (height - 1) * stride + width * 4 <= len,
    ensures
        0 < width,
        0 <= i / (width * 4) < height,
        0 <= i % (width * 4) < width * 4,
        0 <= (i / (width * 4)) * stride,
        (i / (width * 4)) * stride + i % (width * 4) < len,
{
    assert(0 < width && 0 < height) by (nonlinear_arith)
        requires
            0 <= i < width * 4 * height,
            0 <= width,
            0 <= height,
    ;
    let row = width * 4;
    let y = i / row;
    assert(0 <= y < height) by (nonlinear_arith)
        requires
            y == i / row,
            0 <= i < row * height,
            0 < row,
    ;
    assert(0 <= y * stride <= (height - 1) * stride) by (nonlinear_arith)
        requires
            0 <= y <= height - 1,
            0 <= stride,
    ;
}

/// Convert a picture with 8 bits per channel to one with 16 bits per channel.
/// `table` holds the 16-bit number of every 8-bit one.
#[must_use]
pub fn widen(data: &Vec<u8>, width: u32, height: u32, stride: u32, table: &Vec<u16>) -> (r: Vec<u8>)
    requires
        width * 8 * height <= usize::MAX,
        has_rows(data@.len() as int, width, height, stride),
        table@.len() == 256,
    ensures
        r@ == widened(data@, width, height, stride, table@),
{
    let ghost goal = widened(data@, width, height, stride, table@);
    assert(width * 4 * height * 2 == width * 8 * height) by (nonlinear_arith);
    assert(width * 4 * height >= 0) by (nonlinear_arith)
        requires
            width >= 0,
            height >= 0,
    ;
    assert(height > 0 ==> width * 8 <= width * 8 * height) by (nonlinear_arith)
        requires
            width >= 0,
    ;
    let total: usize = if height == 0 {
        0
    } else {
        width as usize * 4 * height as usize
    };
    let mut r: Vec<u8> = Vec::new();
    let mut i: usize = 0;
    while i < total
        invariant
            i <= total,
            total == width * 4 * height,
            width * 8 * height <= usize::MAX,
            width * 4 * height * 2 == width * 8 * height,
            height > 0 ==> width * 8 <= width * 8 * height,
            has_rows(data@.len() as int, width, height, stride),
            table@.len() == 256,
            goal == widened(data@, width, height, stride, table@),
            r@ == goal.subrange(0, 2 * i),
        decreases total - i,
    {
        proof {
            lemma_channel_place(
                i as int,
                width as int,
                height as int,
                stride as int,
                data@.len() as int,
            );
            assert(data@.len() == data.len());
        }
        let row: usize = width as usize * 4;
        let at: usize = (i / row) * stride as usize + i % row;
        let half: u16 = table[data[at] as usize];
        r.push((half % 256) as u8);
        r.push((half / 256) as u8);
        assert(goal[2 * i] == (half % 256) as u8);
        assert(goal[2 * i + 1] == (half / 256) as u8) by {
            assert((2 * i + 1) / 2 == i);
        }
        assert(r@ =~= goal.subrange(0, 2 * (i + 1)));
        i = i + 1;
    }
    assert(r@ =~= goal);
    r
}

/// Convert a picture with 16 bits per channel to one with 8 bits per channel.
/// `table` holds the 8-bit number of every 16-bit one.
#[must_use]
pub fn narrow(data: &[u8], width: u32, height: u32, table: &Vec<u8>) -> (r: Vec<u8>)
    requires
        width * 8 * height <= data@.len(),
        table@.len() == 65536,
    ensures
        r@ == narrowed(data@, width, height, table@),
{
    let ghost goal = narrowed(data@, width, height, table@);
    assert(width * 4 * height * 2 == width * 8 * height) by (nonlinear_arith);
    assert(width * 4 * height >= 0) by (nonlinear_arith)
        requires
            width >= 0,
            height >= 0,
    ;
    assert(height > 0 ==> width * 8 <= width * 8 * height) by (nonlinear_arith)
        requires
            width >= 0,
    ;
    assert(data@.len() == data.len());
    let total: usize = if height == 0 {
        0
    } else {
        width as usize * 4 * height as usize
    };
    let mut r: Vec<u8> = Vec::new();
    let mut i: usize = 0;
    while i < total
        invariant
            i <= total,
            2 * total <= data@.len(),
            data@.len() == data.len(),
            total == width * 4 * height,
            table@.len() == 65536,
            goal == narrowed(data@, width, height, table@),
            r@ == goal.subrange(0, i as int),
        decreases total - i,
    {
        let low: usize = data[2 * i] as usize;
        let high: usize = data[2 * i + 1] as usize;
        r.push(table[low + 256 * high]);
        assert(r@ =~= goal.subrange(0, i + 1));
        i = i + 1;
    }
    assert(r@ =~= goal);
    r
}

/// What fills the images before a frame is generated from frame `b`.
pub open spec fn spec_uploads(s: Sizes, b: FrameView, table: Seq<u16>) -> Seq<ImageUploadView> {
    seq![
        ImageUploadView {
            image: INPUT_COLOR,
            width: b.width,
            height: b.height,
            data: widened(b.data, b.width, b.height, b.stride, table),
        },
        ImageUploadView {
            image: INPUT_DEPTH,
            width: s.render_w,
            height: s.render_h,
            data: fsr2_native::depth_bytes(s.render_pixels() as nat),
        },
        ImageUploadView {
            image: INPUT_MV,
            width: s.render_w,
            height: s.render_h,
            data: Seq::new((s.render_pixels() * 4) as nat, |i: int| 0u8),
        },
    ]
}

/// The frame made of what the GPU handed back for frames `a` and `b`.
pub open spec fn generated(
    s: Sizes,
    a: FrameView,
    b: FrameView,
    staging: Seq<u8>,
    table: Seq<u8>,
) -> FrameView {
    FrameView {
        data: narrowed(staging, s.display_w, s.display_h, table),
        width: s.display_w,
        height: s.display_h,
        stride: (s.display_w * 4) as u32,
        timestamp_ns: midpoint(a.timestamp_ns, b.timestamp_ns),
    }
}

/// The time in the middle between two frames; that of the first one where they
/// are not in order.
pub open spec fn midpoint(a: u64, b: u64) -> u64 {
    if b >= a {
        (a + (b - a) / 2) as u64
    } else {
        a
    }
}

/// What the prepare pass is given.
#[derive(Debug, Clone, Copy, PartialEq, Eq, Structural)]
pub struct PrepareParameters {
    pub flags: u32,
    pub render_size: FfxDimensions2D,
    pub depth: FfxResourceUse,
    pub motion_vectors: FfxResourceUse,
    pub frame_id: u64,
    pub dilated_depth: FfxResourceUse,
    pub dilated_motion_vectors: FfxResourceUse,
    pub reconstructed_prev_depth: FfxResourceUse,
}

/// What the generating pass is given.
#[derive(Debug, Clone, Copy, PartialEq, Eq, Structural)]
pub struct DispatchParameters {
    pub flags: u32,
    pub display_size: FfxDimensions2D,
    pub render_size: FfxDimensions2D,
    pub current_back_buffer: FfxResourceUse,
    pub output: FfxResourceUse,
    pub interpolation_rect: FfxRect2D,
    pub optical_flow_vector: FfxResourceUse,
    pub optical_flow_scene_change_detection: FfxResourceUse,
    pub optical_flow_block_size: u32,
    pub reset: bool,
    pub backbuffer_transfer_function: u32,
    pub frame_id: u64,
    pub dilated_depth: FfxResourceUse,
    pub dilated_motion_vectors: FfxResourceUse,
    pub reconstructed_prev_depth: FfxResourceUse,
}

/// A texture of the backend as it is handed to the SDK.
pub open spec fn texture_use(format: u32, width: u32, height: u32, state: u32) -> FfxResourceUse {
    FfxResourceUse {
        description: ffx_fg::texture_of(format, width, height, FFX_RESOURCE_USAGE_UAV),
        state,
    }
}

/// The reconstructed depth as it is handed to the SDK.
pub open spec fn depth_buffer_use(s: Sizes) -> FfxResourceUse {
    FfxResourceUse {
        description: FfxResourceDescription {
            type_: ffx_fg::FFX_RESOURCE_TYPE_BUFFER,
            format: 0,
            width: s.render_pixels() as u32,
            height: 1,
            depth: 1,
            mip_count: 1,
            flags: ffx_fg::FFX_RESOURCE_FLAGS_NONE,
            usage: FFX_RESOURCE_USAGE_UAV,
        },
        state: FFX_RESOURCE_STATE_UNORDERED_ACCESS,
    }
}

/// What the prepare pass of a frame is given.
pub open spec fn prepare_parameters_of(s: Sizes, frame_id: u64) -> PrepareParameters {
    PrepareParameters {
        flags: 0,
        render_size: FfxDimensions2D { width: s.render_w, height: s.render_h },
        depth: texture_use(
            FFX_SURFACE_FORMAT_R32_FLOAT,
            s.render_w,
            s.render_h,
            FFX_RESOURCE_STATE_COMPUTE_READ,
        ),
        motion_vectors: texture_use(
            FFX_SURFACE_FORMAT_R16G16_FLOAT,
            s.render_w,
            s.render_h,
            FFX_RESOURCE_STATE_COMPUTE_READ,
        ),
        frame_id,
        dilated_depth: texture_use(
            FFX_SURFACE_FORMAT_R32_FLOAT,
            s.render_w,
            s.render_h,
            FFX_RESOURCE_STATE_UNORDERED_ACCESS,
        ),
        dilated_motion_vectors: texture_use(
            FFX_SURFACE_FORMAT_R16G16_FLOAT,
            s.render_w,
            s.render_h,
            FFX_RESOURCE_STATE_UNORDERED_ACCESS,
        ),
        reconstructed_prev_depth: depth_buffer_use(s),
    }
}

/// What the generating pass of a frame is given.
pub open spec fn dispatch_parameters_of(s: Sizes, frame_id: u64) -> DispatchParameters {
    let prepared = prepare_parameters_of(s, frame_id);
    DispatchParameters {
        flags: FFX_FRAMEINTERPOLATION_DISPATCH_DRAW_DEBUG_TEAR_LINES,
        display_size: FfxDimensions2D { width: s.display_w, height: s.display_h },
        render_size: FfxDimensions2D { width: s.render_w, height: s.render_h },
        current_back_buffer: texture_use(
            FFX_SURFACE_FORMAT_R16G16B16A16_FLOAT,
            s.render_w,
            s.render_h,
            FFX_RESOURCE_STATE_COMPUTE_READ,
        ),
        output: texture_use(
            FFX_SURFACE_FORMAT_R16G16B16A16_FLOAT,
            s.display_w,
            s.display_h,
            FFX_RESOURCE_STATE_UNORDERED_ACCESS,
        ),
        interpolation_rect: FfxRect2D {
            left: 0,
            top: 0,
            width: s.display_w as i32,
            height: s.display_h as i32,
        },
        optical_flow_vector: texture_use(
            FFX_SURFACE_FORMAT_R16G16_FLOAT,
            s.render_w,
            s.render_h,
            FFX_RESOURCE_STATE_UNORDERED_ACCESS,
        ),
        optical_flow_scene_change_detection: texture_use(
            FFX_SURFACE_FORMAT_R8G8B8A8_UNORM,
            s.render_w,
            s.render_h,
            FFX_RESOURCE_STATE_UNORDERED_ACCESS,
        ),
        optical_flow_block_size: OPTICAL_FLOW_BLOCK_SIZE,
        reset: false,
        backbuffer_transfer_function: FFX_BACKBUFFER_TRANSFER_FUNCTION_SRGB,
        frame_id,
        dilated_depth: prepared.dilated_depth,
        dilated_motion_vectors: prepared.dilated_motion_vectors,
        reconstructed_prev_depth: prepared.reconstructed_prev_depth,
    }
}

/// AMD FSR3 Frame Generation backend.
///
/// Generates an interpolated frame between two consecutive real frames
/// using optical flow + frame interpolation compute shaders from the
/// `FidelityFX` SDK.
#[derive(Debug)]
pub struct Fsr3FrameGen {
    sizes: Sizes,
    /// Number of the next frame.
    frame_id: u64,
    /// Pre-built constant depth-far fill (1.0 per pixel at render resolution).
    depth_scratch: Vec<u8>,
    /// Pre-built constant zero motion-vector fill.
    mv_scratch: Vec<u8>,
}

impl Fsr3FrameGen {
    /// The resolutions.
    pub closed spec fn spec_sizes(self) -> Sizes {
        self.sizes
    }

    /// Number of the next frame.
    pub closed spec fn spec_frame_id(self) -> u64 {
        self.frame_id
    }

    #[verifier::type_invariant]
    spec fn scratch_filled(self) -> bool {
        &&& self.sizes.fit()
        &&& self.depth_scratch@ == fsr2_native::depth_bytes(self.sizes.render_pixels() as nat)
        &&& self.mv_scratch@ == Seq::new(
            (self.sizes.render_pixels() * 4) as nat,
            |i: int| 0u8,
        )
    }

    /// Create a new FSR3 Frame Generation backend.
    ///
    /// # Arguments
    /// * `render_w`, `render_h` — render resolution (input frames).
    /// * `display_w`, `display_h` — display/output resolution.
    #[must_use]
    pub fn new(render_w: u32, render_h: u32, display_w: u32, display_h: u32) -> (r: Fsr3FrameGen)
        requires
            (Sizes { render_w, render_h, display_w, display_h }).fit(),
        ensures
            r.spec_sizes() == (Sizes { render_w, render_h, display_w, display_h }),
            r.spec_frame_id() == 0,
    {
        assert(0 <= render_w * render_h <= render_w * render_h * 4) by (nonlinear_arith)
            requires
                render_w >= 0,
                render_h >= 0,
        ;
        let pixels: usize = (render_w * render_h) as usize;
        Fsr3FrameGen {
            sizes: Sizes { render_w, render_h, display_w, display_h },
            frame_id: 0,
            depth_scratch: fsr2_native::depth_scratch(pixels),
            mv_scratch: fsr2_native::motion_scratch(pixels),
        }
    }

    /// Description of the frame generation context.
    #[must_use]
    pub fn context_description(&self, backend_interface: FfxInterface) -> (r:
        FfxFrameInterpolationContextDescription)
        ensures
            r.flags == 15,
            r.max_render_size == (FfxDimensions2D {
                width: self.spec_sizes().render_w,
                height: self.spec_sizes().render_h,
            }),
            r.display_size == (FfxDimensions2D {
                width: self.spec_sizes().display_w,
                height: self.spec_sizes().display_h,
            }),
            r.backend_interface == backend_interface,
            r.back_buffer_format == FFX_SURFACE_FORMAT_R16G16B16A16_FLOAT,
            r.previous_interpolation_source_format == FFX_SURFACE_FORMAT_R16G16B16A16_FLOAT,
    {
        assert(1u32 | 2u32 | 4u32 | 8u32 == 15u32) by (bit_vector);
        FfxFrameInterpolationContextDescription {
            flags: FFX_FRAMEINTERPOLATION_ENABLE_DEPTH_INVERTED
                | FFX_FRAMEINTERPOLATION_ENABLE_DEPTH_INFINITE
                | FFX_FRAMEINTERPOLATION_ENABLE_HDR_COLOR_INPUT
                | FFX_FRAMEINTERPOLATION_ENABLE_JITTER_MOTION_VECTORS,
            max_render_size: FfxDimensions2D {
                width: self.sizes.render_w,
                height: self.sizes.render_h,
            },
            display_size: FfxDimensions2D {
                width: self.sizes.display_w,
                height: self.sizes.display_h,
            },
            backend_interface,
            back_buffer_format: FFX_SURFACE_FORMAT_R16G16B16A16_FLOAT,
            previous_interpolation_source_format: FFX_SURFACE_FORMAT_R16G16B16A16_FLOAT,
        }
    }

    /// The resources that live as long as the backend, given what the SDK says of
    /// those that its passes share.
    #[must_use]
    pub fn plan(&self, shared: FfxFrameInterpolationSharedResourceDescriptions) -> (r: Plan)
        requires
            shared_fit(shared),
        ensures
            r@ == spec_plan(self.spec_sizes(), shared),
    {
        proof {
            use_type_invariant(self);
        }
        let s = self.sizes;
        let rec_w: u32 = shared.reconstructed_prev_nearest_depth.width;
        let rec_h: u32 = shared.reconstructed_prev_nearest_depth.height;
        assert(0 <= rec_w * rec_h <= rec_w * rec_h * 4) by (nonlinear_arith)
            requires
                rec_w >= 0,
                rec_h >= 0,
        ;
        let display_w: u32 = s.display_w;
        let display_h: u32 = s.display_h;
        assert(0 <= display_w * display_h <= display_w * display_h * 8) by (nonlinear_arith)
            requires
                display_w >= 0,
                display_h >= 0,
        ;
        let mut buffers: Vec<BufferRequest> = Vec::new();
        buffers.push(
            BufferRequest {
                size: rec_w as u64 * rec_h as u64 * 4,
                storage: true,
                transfer_src: false,
                transfer_dst: true,
                memory: MemoryKind::Device,
            },
        );
        buffers.push(
            BufferRequest {
                size: display_w as u64 * display_h as u64 * 8,
                storage: false,
                transfer_src: false,
                transfer_dst: true,
                memory: MemoryKind::HostCached,
            },
        );
        let mut images: Vec<ImageRequest> = Vec::new();
        images.push(compute_image(s.render_w, s.render_h, Format::Rgba16Float));
        images.push(compute_image(s.render_w, s.render_h, Format::R32Float));
        images.push(compute_image(s.render_w, s.render_h, Format::Rg16Float));
        images.push(compute_image(s.display_w, s.display_h, Format::Rgba16Float));
        images.push(
            compute_image(
                shared.dilated_depth.width,
                shared.dilated_depth.height,
                Format::R32Float,
            ),
        );
        images.push(
            compute_image(
                shared.dilated_motion_vectors.width,
                shared.dilated_motion_vectors.height,
                Format::Rg16Float,
            ),
        );
        images.push(compute_image(s.render_w, s.render_h, Format::Rg16Float));
        images.push(compute_image(s.render_w, s.render_h, Format::R8));
        let r = Plan { buffers, images, bindings: Vec::new() };
        assert(r@ =~= spec_plan(s, shared));
        r
    }

    /// What fills the images before a frame is generated: the pixels of frame `b`
    /// with 16 bits per channel, as the current back buffer, a far depth and no
    /// motion. `table` holds the 16-bit number of every 8-bit one.
    ///
    /// # Errors
    ///
    /// The frames differ in their dimensions.
    pub fn begin<'a>(&'a self, a: &GpuFrame, b: &GpuFrame, table: &Vec<u16>) -> (r: Result<
        Vec<ImageUpload<'a>>,
        InterpolateError,
    >)
        requires
            table@.len() == 256,
            a@.same_dimensions(b@) ==> b.width * 8 * b.height <= usize::MAX && has_rows(
                b.data@.len() as int,
                b.width,
                b.height,
                b.stride,
            ),
        ensures
            match r {
                Ok(uploads) => a@.same_dimensions(b@) && common::image_uploads_of(uploads@)
                    == spec_uploads(self.spec_sizes(), b@, table@),
                Err(e) => !a@.same_dimensions(b@) && e == InterpolateError::DimensionMismatch(
                    a.width,
                    a.height,
                    b.width,
                    b.height,
                ),
            },
    {
        if !a.same_dimensions(b) {
            return Err(
                InterpolateError::DimensionMismatch(a.width, a.height, b.width, b.height),
            );
        }
        proof {
            use_type_invariant(self);
        }
        let mut r: Vec<ImageUpload<'a>> = Vec::new();
        r.push(
            ImageUpload {
                image: INPUT_COLOR,
                width: b.width,
                height: b.height,
                data: UploadData::Made(widen(&b.data, b.width, b.height, b.stride, table)),
            },
        );
        r.push(
            ImageUpload {
                image: INPUT_DEPTH,
                width: self.sizes.render_w,
                height: self.sizes.render_h,
                data: UploadData::Pixels(self.depth_scratch.as_slice()),
            },
        );
        r.push(
            ImageUpload {
                image: INPUT_MV,
                width: self.sizes.render_w,
                height: self.sizes.render_h,
                data: UploadData::Pixels(self.mv_scratch.as_slice()),
            },
        );
        assert(common::image_uploads_of(r@) =~= spec_uploads(self.sizes, b@, table@));
        Ok(r)
    }

    /// The number of the frame that is being generated. Numbers start over after
    /// the last one.
    pub fn next_frame_id(&mut self) -> (r: u64)
        ensures
            r == old(self).spec_frame_id(),
            final(self).spec_frame_id() == if r == u64::MAX {
                0
            } else {
                (r + 1) as u64
            },
            final(self).spec_sizes() == old(self).spec_sizes(),
    {
        let id: u64 = self.frame_id;
        let next: u64 = id.wrapping_add(1);
        proof {
            use_type_invariant(&*self);
        }
        self.frame_id = next;
        id
    }

    /// What the prepare pass of a frame is given.
    #[must_use]
    pub fn prepare_parameters(&self, frame_id: u64) -> (r: PrepareParameters)
        ensures
            r == prepare_parameters_of(self.spec_sizes(), frame_id),
    {
        proof {
            use_type_invariant(self);
        }
        let s = self.sizes;
        let render_w: u32 = s.render_w;
        let render_h: u32 = s.render_h;
        assert(0 <= render_w * render_h) by (nonlinear_arith)
            requires
                render_w >= 0,
                render_h >= 0,
        ;
        PrepareParameters {
            flags: 0,
            render_size: FfxDimensions2D { width: render_w, height: render_h },
            depth: FfxResourceUse {
                description: FfxResourceDescription::texture(
                    FFX_SURFACE_FORMAT_R32_FLOAT,
                    render_w,
                    render_h,
                ),
                state: FFX_RESOURCE_STATE_COMPUTE_READ,
            },
            motion_vectors: FfxResourceUse {
                description: FfxResourceDescription::texture(
                    FFX_SURFACE_FORMAT_R16G16_FLOAT,
                    render_w,
                    render_h,
                ),
                state: FFX_RESOURCE_STATE_COMPUTE_READ,
            },
            frame_id,
            dilated_depth: FfxResourceUse {
                description: FfxResourceDescription::texture(
                    FFX_SURFACE_FORMAT_R32_FLOAT,
                    render_w,
                    render_h,
                ),
                state: FFX_RESOURCE_STATE_UNORDERED_ACCESS,
            },
            dilated_motion_vectors: FfxResourceUse {
                description: FfxResourceDescription::texture(
                    FFX_SURFACE_FORMAT_R16G16_FLOAT,
                    render_w,
                    render_h,
                ),
                state: FFX_RESOURCE_STATE_UNORDERED_ACCESS,
            },
            reconstructed_prev_depth: FfxResourceUse {
                description: FfxResourceDescription::buffer(render_w * render_h),
                state: FFX_RESOURCE_STATE_UNORDERED_ACCESS,
            },
        }
    }

    /// What the generating pass of a frame is given.
    #[must_use]
    pub fn dispatch_parameters(&self, frame_id: u64) -> (r: DispatchParameters)
        ensures
            r == dispatch_parameters_of(self.spec_sizes(), frame_id),
    {
        let s = self.sizes;
        let prepared = self.prepare_parameters(frame_id);
        DispatchParameters {
            flags: FFX_FRAMEINTERPOLATION_DISPATCH_DRAW_DEBUG_TEAR_LINES,
            display_size: FfxDimensions2D { width: s.display_w, height: s.display_h },
            render_size: FfxDimensions2D { width: s.render_w, height: s.render_h },
            current_back_buffer: FfxResourceUse {
                description: FfxResourceDescription::texture(
                    FFX_SURFACE_FORMAT_R16G16B16A16_FLOAT,
                    s.render_w,
                    s.render_h,
                ),
                state: FFX_RESOURCE_STATE_COMPUTE_READ,
            },
            output: FfxResourceUse {
                description: FfxResourceDescription::texture(
                    FFX_SURFACE_FORMAT_R16G16B16A16_FLOAT,
                    s.display_w,
                    s.display_h,
                ),
                state: FFX_RESOURCE_STATE_UNORDERED_ACCESS,
            },
            interpolation_rect: FfxRect2D {
                left: 0,
                top: 0,
                width: #[verifier::truncate] (s.display_w as i32),
                height: #[verifier::truncate] (s.display_h as i32),
            },
            optical_flow_vector: FfxResourceUse {
                description: FfxResourceDescription::texture(
                    FFX_SURFACE_FORMAT_R16G16_FLOAT,
                    s.render_w,
                    s.render_h,
                ),
                state: FFX_RESOURCE_STATE_UNORDERED_ACCESS,
            },
            optical_flow_scene_change_detection: FfxResourceUse {
                description: FfxResourceDescription::texture(
                    FFX_SURFACE_FORMAT_R8G8B8A8_UNORM,
                    s.render_w,
                    s.render_h,
                ),
                state: FFX_RESOURCE_STATE_UNORDERED_ACCESS,
            },
            optical_flow_block_size: OPTICAL_FLOW_BLOCK_SIZE,
            reset: false,
            backbuffer_transfer_function: FFX_BACKBUFFER_TRANSFER_FUNCTION_SRGB,
            frame_id,
            dilated_depth: prepared.dilated_depth,
            dilated_motion_vectors: prepared.dilated_motion_vectors,
            reconstructed_prev_depth: prepared.reconstructed_prev_depth,
        }
    }

    /// The commands that generate a frame.
    #[must_use]
    pub fn generate_program(&self) -> (r: Vec<Step>)
        ensures
            r@ == spec_generate(self.spec_sizes()),
    {
        let mut r: Vec<Step> = Vec::new();
        // Input images are read.
        r.push(before_pass(INPUT_COLOR, Access::ShaderRead));
        r.push(before_pass(INPUT_DEPTH, Access::ShaderRead));
        r.push(before_pass(INPUT_MV, Access::ShaderRead));
        // Shared resources are read and written.
        r.push(before_pass(DILATED_DEPTH, Access::ShaderReadWrite));
        r.push(before_pass(DILATED_MV, Access::ShaderReadWrite));
        r.push(before_pass(OPTICAL_FLOW_VECTOR, Access::ShaderReadWrite));
        r.push(before_pass(OPTICAL_FLOW_SCD, Access::ShaderReadWrite));
        // The output image is written.
        r.push(before_pass(OUTPUT_COLOR, Access::ShaderWrite));
        assert(r@ =~= spec_transitions());
        r.push(Step::Sdk(SdkWork::Prepare));
        r.push(Step::Sdk(SdkWork::Generate));
        r.push(program::before_download(OUTPUT_COLOR));
        r.push(
            Step::CopyImageToBuffer {
                image: OUTPUT_COLOR,
                buffer: STAGING,
                width: self.sizes.display_w,
                height: self.sizes.display_h,
            },
        );
        assert(r@ =~= spec_generate(self.spec_sizes()));
        r
    }

    /// Number of bytes to read back: eight for each pixel of the display.
    #[must_use]
    pub fn read_size(&self) -> (r: u64)
        ensures
            r == self.spec_sizes().display_w * 8 * self.spec_sizes().display_h,
    {
        proof {
            use_type_invariant(self);
        }
        let w: u32 = self.sizes.display_w;
        let h: u32 = self.sizes.display_h;
        assert(w * 8 * h == w * h * 8 && 0 <= w * h) by (nonlinear_arith)
            requires
                w >= 0,
                h >= 0,
        ;
        w as u64 * h as u64 * 8
    }

    /// The generated frame, made of what the GPU handed back: at display
    /// resolution, tightly packed, at the temporal midpoint. `table` holds the
    /// 8-bit number of every 16-bit one.
    pub fn finish(&self, a: &GpuFrame, b: &GpuFrame, staging: &[u8], table: &Vec<u8>) -> (r: GpuFrame)
        requires
            self.spec_sizes().display_w * 8 * self.spec_sizes().display_h <= staging@.len(),
            table@.len() == 65536,
        ensures
            r@ == generated(self.spec_sizes(), a@, b@, staging@, table@),
    {
        proof {
            use_type_invariant(self);
        }
        let timestamp_ns: u64 = if b.timestamp_ns >= a.timestamp_ns {
            a.timestamp_ns + (b.timestamp_ns - a.timestamp_ns) / 2
        } else {
            a.timestamp_ns
        };
        GpuFrame {
            data: narrow(staging, self.sizes.display_w, self.sizes.display_h, table),
            width: self.sizes.display_w,
            height: self.sizes.display_h,
            stride: self.sizes.display_w * 4,
            timestamp_ns,
        }
    }

    /// Estimated latency in milliseconds: 16.67, about one frame at 60 fps, as
    /// IEEE 754 single-precision bits.
    #[must_use]
    pub fn latency_ms(&self) -> (r: u32)
        ensures
            r == 0x4185_5c29,
    {
        0x4185_5c29
    }

    /// Human-readable name of this backend.
    #[must_use]
    pub fn name(&self) -> (r: &'static str)
        ensures
            r@ == "fsr3-fg"@,
    {
        "fsr3-fg"
    }
}

/// The buffer that an image is filled from.
#[must_use]
pub fn upload_buffer(size: u64) -> (r: BufferRequest)
    ensures
        r == upload_buffer_of(size as int),
{
    BufferRequest {
        size,
        storage: false,
        transfer_src: true,
        transfer_dst: false,
        memory: MemoryKind::Host,
    }
}

/// The commands that fill the top left of an image.
#[must_use]
pub fn upload_program(image: usize, width: u32, height: u32) -> (r: Vec<Step>)
    ensures
        r@ == spec_upload(image, width, height),
{
    let mut r: Vec<Step> = Vec::new();
    r.push(program::before_upload(image));
    r.push(Step::CopyBufferToImage { buffer: UPLOAD, image, width, height });
    assert(r@ =~= spec_upload(image, width, height));
    r
}

/// Label of an image or buffer in the message of a failed setup.
pub open spec fn resource_label(is_image: bool, index: usize) -> Seq<char> {
    if is_image {
        if index == INPUT_COLOR {
            "input_color: "@
        } else if index == INPUT_DEPTH {
            "input_depth: "@
        } else if index == INPUT_MV {
            "input_mv: "@
        } else if index == OUTPUT_COLOR {
            "output_color: "@
        } else if index == DILATED_DEPTH {
            "dilated_depth image: "@
        } else if index == DILATED_MV {
            "dilated_mv image: "@
        } else if index == OPTICAL_FLOW_VECTOR {
            "optical_flow_vector: "@
        } else {
            "optical_flow_scd: "@
        }
    } else if index == RECONSTRUCTED_PREV_DEPTH {
        "reconstructed_prev_depth buffer: "@
    } else {
        "staging buffer: "@
    }
}

/// The error of a setup in which the resource of this index failed.
#[must_use]
pub fn resource_failure(is_image: bool, index: usize, reason: &str) -> (r: InterpolateError)
    ensures
        r matches InterpolateError::InitFailed(m) && m@ == resource_label(is_image, index)
            + reason@,
{
    let label: &str = if is_image {
        if index == INPUT_COLOR {
            "input_color: "
        } else if index == INPUT_DEPTH {
            "input_depth: "
        } else if index == INPUT_MV {
            "input_mv: "
        } else if index == OUTPUT_COLOR {
            "output_color: "
        } else if index == DILATED_DEPTH {
            "dilated_depth image: "
        } else if index == DILATED_MV {
            "dilated_mv image: "
        } else if index == OPTICAL_FLOW_VECTOR {
            "optical_flow_vector: "
        } else {
            "optical_flow_scd: "
        }
    } else if index == RECONSTRUCTED_PREV_DEPTH {
        "reconstructed_prev_depth buffer: "
    } else {
        "staging buffer: "
    };
    let mut m = String::from_str(label);
    m.append(reason);
    InterpolateError::InitFailed(m)
}

proof fn lemma_transitions_are_sound(plan: PlanView, start: Seq<Layout>)
    requires
        plan.images.len() == 8,
        start.len() == 8,
    ensures
        program::sound(plan, start, spec_transitions()),
        program::layouts_after(start, spec_transitions(), 8) == program::all_in(
            plan,
            Layout::General,
        ),
{
    reveal(program::sound);
    reveal_with_fuel(program::layouts_after, 9);
    let s = spec_transitions();
    assert(program::layouts_after(start, s, 8) =~= program::all_in(plan, Layout::General));
}

proof fn lemma_passes_are_sound(
    s: Sizes,
    shared: FfxFrameInterpolationSharedResourceDescriptions,
)
    requires
        s.fit(),
    ensures
        program::sound(
            spec_plan(s, shared),
            program::all_in(spec_plan(s, shared), Layout::General),
            spec_passes(s),
        ),
{
    reveal(program::sound);
    reveal_with_fuel(program::layouts_after, 5);
    let steps = spec_passes(s);
    let start = program::all_in(spec_plan(s, shared), Layout::General);
    assert(program::layouts_after(start, steps, 3)[OUTPUT_COLOR as int] == Layout::TransferSrc);
    let w = s.display_w;
    let h = s.display_h;
    assert(0 <= w * h * 8) by (nonlinear_arith)
        requires
            w >= 0,
            h >= 0,
    ;
}

/// The commands that generate a frame are sound on the resources, whatever the
/// layouts of the images were.
pub proof fn law_generate_is_sound(
    s: Sizes,
    shared: FfxFrameInterpolationSharedResourceDescriptions,
    start: Seq<Layout>,
)
    requires
        s.fit(),
        start.len() == 8,
    ensures
        program::sound(spec_plan(s, shared), start, spec_generate(s)),
{
    lemma_transitions_are_sound(spec_plan(s, shared), start);
    lemma_passes_are_sound(s, shared);
    program::law_programs_compose(
        spec_plan(s, shared),
        start,
        spec_transitions(),
        spec_passes(s),
    );
}

/// The commands that fill an image are sound where the pixels fit into the image
/// and the buffer holds as many bytes as they take.
pub proof fn law_upload_is_sound(
    s: Sizes,
    shared: FfxFrameInterpolationSharedResourceDescriptions,
    start: Seq<Layout>,
    image: usize,
    width: u32,
    height: u32,
)
    requires
        start.len() == 8,
        image < 8,
        width <= spec_plan(s, shared).images[image as int].width,
        height <= spec_plan(s, shared).images[image as int].height,
        width * height * spec_plan(s, shared).images[image as int].format.pixel_bytes()
            <= u64::MAX,
    ensures
        program::sound(
            with_upload(
                spec_plan(s, shared),
                width * height * spec_plan(s, shared).images[image as int].format.pixel_bytes(),
            ),
            start,
            spec_upload(image, width, height),
        ),
{
    reveal(program::sound);
    reveal_with_fuel(program::layouts_after, 3);
    let n = spec_plan(s, shared).images[image as int].format.pixel_bytes();
    assert(0 <= width * height * n) by (nonlinear_arith)
        requires
            width >= 0,
            height >= 0,
            n >= 0,
    ;
}

/// Pixels come back as they went: where the table to 8 bits undoes the table to
/// 16 bits, narrowing a widened picture gives every channel of it, without the
/// padding of its rows.
pub proof fn law_pixels_come_back(
    data: Seq<u8>,
    width: u32,
    height: u32,
    stride: u32,
    to_half: Seq<u16>,
    from_half: Seq<u8>,
    i: int,
)
    requires
        to_half.len() == 256,
        from_half.len() == 65536,
        forall|v: u8| from_half[#[trigger] to_half[v as int] as int] == v,
        0 <= i < width * 4 * height,
    ensures
        narrowed(widened(data, width, height, stride, to_half), width, height, from_half)[i]
            == channel(data, width, stride, i),
{
    let wide = widened(data, width, height, stride, to_half);
    let v = channel(data, width, stride, i);
    let half = to_half[v as int];
    assert(2 * (width * 4 * height) == width * 8 * height) by (nonlinear_arith);
    assert((2 * i) / 2 == i && (2 * i + 1) / 2 == i);
    assert(wide[2 * i] == (half % 256) as u8);
    assert(wide[2 * i + 1] == (half / 256) as u8);
    assert((half % 256) as u8 + 256 * ((half / 256) as u8) == half);
}

/// A generated frame lies in the middle between the two that it is made of, in
/// time, where these are in order, and at the first one where they are not.
pub proof fn law_midpoint_is_between(a: u64, b: u64)
    ensures
        a <= b ==> a <= midpoint(a, b) <= b,
        a <= b ==> midpoint(a, b) - a <= b - midpoint(a, b) <= midpoint(a, b) - a + 1,
        b < a ==> midpoint(a, b) == a,
{
}

/// A generated frame is complete: it has the display resolution and four bytes
/// for each of its pixels, tightly packed.
pub proof fn law_generated_frame_is_complete(
    s: Sizes,
    a: FrameView,
    b: FrameView,
    staging: Seq<u8>,
    table: Seq<u8>,
)
    requires
        s.fit(),
    ensures
        ({
            let f = generated(s, a, b, staging, table);
            &&& f.width == s.display_w
            &&& f.height == s.display_h
            &&& f.stride == s.display_w * 4
            &&& f.data.len() == s.display_w * s.display_h * 4
        }),
{
    let w = s.display_w;
    let h = s.display_h;
    assert(w * 4 * h == w * h * 4 && 0 <= w * h) by (nonlinear_arith)
        requires
            w >= 0,
            h >= 0,
    ;
}

/// What fills the images has a whole pixel for each that it fills, and goes to
/// three different ones: eight bytes for each pixel of the color, four for each of
/// the depth and the motion vectors.
pub proof fn law_uploads_fill_their_images(s: Sizes, b: FrameView, table: Seq<u16>)
    ensures
        ({
            let u = spec_uploads(s, b, table);
            &&& u[0].image == INPUT_COLOR && u[0].data.len() == u[0].width * u[0].height * 8
            &&& u[1].image == INPUT_DEPTH && u[1].data.len() == u[1].width * u[1].height * 4
            &&& u[2].image == INPUT_MV && u[2].data.len() == u[2].width * u[2].height * 4
        }),
{
    let w = b.width;
    let h = b.height;
    assert(w * 8 * h == w * h * 8 && 0 <= w * h) by (nonlinear_arith)
        requires
            w >= 0,
            h >= 0,
    ;
    let rw = s.render_w;
    let rh = s.render_h;
    assert(0 <= rw * rh) by (nonlinear_arith)
        requires
            rw >= 0,
            rh >= 0,
    ;
}

proof fn lemma_pixel(width: u32, height: u32, x: int, y: int, c: int)
    requires
        0 <= x < width,
        0 <= y < height,
        0 <= c < 4,
    ensures
        ({
            let i = 4 * (y * width + x) + c;
            &&& 0 <= i < width * 4 * height
            &&& i / (width * 4) == y
            &&& i % (width * 4) == 4 * x + c
            &&& 2 * (width * 4 * height) == width * 8 * height
        }),
{
    let w = width as int;
    let r = 4 * x + c;
    let i = 4 * (y * w + x) + c;
    assert(i == y * (w * 4) + r && 0 <= i < w * 4 * height && 2 * (w * 4 * height) == w * 8
        * height) by (nonlinear_arith)
        requires
            i == 4 * (y * w + x) + c,
            r == 4 * x + c,
            0 <= x < w,
            0 <= y < height,
            0 <= c < 4,
    ;
    vstd::arithmetic::div_mod::lemma_fundamental_div_mod_converse(i, w * 4, y, r);
}

/// The images are filled with the pixels of the second frame, with the 16-bit
/// number of each channel at the place of its pixel, with a depth of 1.0 and with
/// no motion.
pub proof fn law_uploads_are_the_second_frame(
    s: Sizes,
    b: FrameView,
    table: Seq<u16>,
    x: int,
    y: int,
    c: int,
)
    requires
        s.fit(),
        0 <= x < b.width,
        0 <= y < b.height,
        0 <= c < 4,
    ensures
        ({
            let u = spec_uploads(s, b, table);
            let at = 8 * (y * b.width + x) + 2 * c;
            &&& u.len() == 3
            &&& u[0].image == 0 && u[0].width == b.width && u[0].height == b.height
            &&& layout::half(u[0].data, at) == table[b.data[y * b.stride + 4 * x + c] as int]
            &&& u[1].image == 1 && u[1].width == s.render_w && u[1].height == s.render_h
            &&& fsr2_native::is_far(u[1].data, s.render_w * s.render_h)
            &&& u[2].image == 2 && u[2].width == s.render_w && u[2].height == s.render_h
            &&& fsr2_native::is_still(u[2].data, s.render_w * s.render_h)
        }),
{
    let u = spec_uploads(s, b, table);
    let i = 4 * (y * b.width + x) + c;
    lemma_pixel(b.width, b.height, x, y, c);
    let wide = u[0].data;
    let half = table[b.data[y * b.stride + 4 * x + c] as int];
    assert((2 * i) / 2 == i && (2 * i + 1) / 2 == i);
    assert(wide[2 * i] == (half % 256) as u8);
    assert(wide[2 * i + 1] == (half / 256) as u8);
    let pixels = s.render_w * s.render_h;
    assert(0 <= pixels) by (nonlinear_arith)
        requires
            pixels == s.render_w * s.render_h,
    ;
    let depth = u[1].data;
    assert forall|k: int| 0 <= k < pixels implies #[trigger] layout::word(depth, 4 * k)
        == 0x3f80_0000 by {
        assert((4 * k) % 4 == 0 && (4 * k + 1) % 4 == 1 && (4 * k + 2) % 4 == 2 && (4 * k + 3) % 4
            == 3);
    }
}

/// Each channel of a generated frame is the 8-bit number of the 16-bit one at the
/// same place of the same pixel.
pub proof fn law_generated_pixels_keep_their_place(
    s: Sizes,
    a: FrameView,
    b: FrameView,
    staging: Seq<u8>,
    table: Seq<u8>,
    x: int,
    y: int,
    c: int,
)
    requires
        s.fit(),
        0 <= x < s.display_w,
        0 <= y < s.display_h,
        0 <= c < 4,
    ensures
        ({
            let f = generated(s, a, b, staging, table);
            f.data[y * f.stride + 4 * x + c] == table[layout::half(
                staging,
                8 * (y * s.display_w + x) + 2 * c,
            )]
        }),
{
    lemma_pixel(s.display_w, s.display_h, x, y, c);
    let w = s.display_w as int;
    assert(y * (w * 4) + 4 * x + c == 4 * (y * w + x) + c) by (nonlinear_arith);
}

/// Filling an image leaves it with the bytes that it was filled from, and the
/// others as they were.
pub proof fn law_filling_an_image(
    s: Sizes,
    shared: FfxFrameInterpolationSharedResourceDescriptions,
    before: Contents,
    image: usize,
    data: Seq<u8>,
    i: int,
)
    requires
        image < 8,
        before.buffers.len() == 3,
        before.images.len() == 8,
        data.len() <= u64::MAX,
        ({
            let request = spec_plan(s, shared).images[image as int];
            data.len() == request.width * request.height * request.format.pixel_bytes()
        }),
    ensures
        ({
            let plan = with_upload(spec_plan(s, shared), data.len() as int);
            let m = Machine { plan, pass_buffers: seq![], discards: true, overlaps: true };
            let request = plan.images[image as int];
            let end = m.done(
                m.written(before, UPLOAD, data),
                spec_upload(image, request.width, request.height),
            );
            &&& end.images[image as int] == Cell::ready(Content::Written(data))
            &&& 0 <= i < 8 && i != image ==> end.images[i].content == before.images[i].content
        }),
{
    let plan = with_upload(spec_plan(s, shared), data.len() as int);
    let m = Machine { plan, pass_buffers: seq![], discards: true, overlaps: true };
    let request = plan.images[image as int];
    let steps = spec_upload(image, request.width, request.height);
    let start = m.written(before, UPLOAD, data);
    assert(m.after(start, steps, 0) == start);
    let m1 = m.after(start, steps, 1);
    let m2 = m.after(start, steps, 2);
    assert(m2.images[image as int].content == Content::Written(data));
}

/// The prepare pass gets the depth and the motion vectors, the generating pass the
/// current frame and what the prepare pass made, and what it makes is read back.
/// The transitions before the passes start from an undefined layout; the images are
/// followed as on a driver that keeps what they hold.
pub proof fn law_filled_images_reach_the_passes(
    s: Sizes,
    shared: FfxFrameInterpolationSharedResourceDescriptions,
    before: Contents,
)
    requires
        s.fit(),
        before.buffers.len() == 2,
        before.images.len() == 8,
    ensures
        ({
            let m = Machine {
                plan: spec_plan(s, shared),
                pass_buffers: seq![],
                discards: false,
                overlaps: false,
            };
            let held = before.images.map_values(|c: Cell| c.content);
            let end = m.done(before, spec_generate(s));
            &&& end.buffers[STAGING as int].content == (Content::Worked {
                work: SdkWork::Generate,
                image: 3,
                inputs: seq![
                    held[0],
                    Content::Worked {
                        work: SdkWork::Prepare,
                        image: 4,
                        inputs: seq![held[1], held[2]],
                    },
                    Content::Worked {
                        work: SdkWork::Prepare,
                        image: 5,
                        inputs: seq![held[1], held[2]],
                    },
                    held[6],
                    held[7],
                ],
            })
            &&& m.plan.buffers[STAGING as int].size == s.display_w * s.display_h * 8
        }),
{
    let m = Machine {
        plan: spec_plan(s, shared),
        pass_buffers: seq![],
        discards: false,
        overlaps: false,
    };
    let held = before.images.map_values(|c: Cell| c.content);
    let steps = spec_generate(s);
    let pixels = s.display_w * s.display_h;
    assert(0 <= pixels) by (nonlinear_arith)
        requires
            pixels == s.display_w * s.display_h,
    ;
    lemma_transitions_keep(m, before, s, 8);
    let m8 = m.after(before, steps, 8);
    assert(steps[8] == spec_passes(s)[0]);
    assert(steps[9] == spec_passes(s)[1]);
    assert(steps[10] == spec_passes(s)[2]);
    assert(steps[11] == spec_passes(s)[3]);
    let prepared = seq![held[1], held[2]];
    assert(m.worked(m8, SdkWork::Prepare, 4).content->Worked_inputs =~= prepared);
    assert(m.worked(m8, SdkWork::Prepare, 5).content->Worked_inputs =~= prepared);
    let m9 = m.after(before, steps, 9);
    assert(m.worked(m9, SdkWork::Generate, 3).content->Worked_inputs =~= seq![
        held[0],
        m9.images[4].content,
        m9.images[5].content,
        held[6],
        held[7],
    ]);
    let m10 = m.after(before, steps, 10);
    let m11 = m.after(before, steps, 11);
    let m12 = m.after(before, steps, 12);
    assert(m12.buffers[STAGING as int].content == m10.images[OUTPUT_COLOR as int].content);
}

proof fn lemma_transitions_keep(m: Machine, before: Contents, s: Sizes, n: int)
    requires
        !m.discards,
        before.images.len() == 8,
        0 <= n <= 8,
    ensures
        ({
            let now = m.after(before, spec_generate(s), n);
            &&& now.buffers == before.buffers
            &&& now.images.len() == 8
            &&& forall|i: int|
                0 <= i < 8 ==> (#[trigger] now.images[i]).content == before.images[i].content
        }),
    decreases n,
{
    if n > 0 {
        lemma_transitions_keep(m, before, s, n - 1);
        assert(spec_generate(s)[n - 1] == spec_transitions()[n - 1]);
    }
}

/// The passes are told the sizes of the images that they work on, and the number of
/// the frame.
pub proof fn law_passes_know_the_sizes(
    s: Sizes,
    shared: FfxFrameInterpolationSharedResourceDescriptions,
    frame_id: u64,
)
    ensures
        ({
            let images = spec_plan(s, shared).images;
            let p = prepare_parameters_of(s, frame_id);
            let d = dispatch_parameters_of(s, frame_id);
            &&& p.frame_id == frame_id && d.frame_id == frame_id
            &&& p.render_size.width == s.render_w && p.render_size.height == s.render_h
            &&& d.render_size.width == s.render_w && d.render_size.height == s.render_h
            &&& d.display_size.width == s.display_w && d.display_size.height == s.display_h
            &&& p.depth.description.width == images[1].width
            &&& p.depth.description.height == images[1].height
            &&& p.motion_vectors.description.width == images[2].width
            &&& p.motion_vectors.description.height == images[2].height
            &&& d.current_back_buffer.description.width == images[0].width
            &&& d.current_back_buffer.description.height == images[0].height
            &&& d.output.description.width == images[3].width
            &&& d.output.description.height == images[3].height
            &&& d.optical_flow_vector.description.width == images[6].width
            &&& d.optical_flow_vector.description.height == images[6].height
            &&& d.optical_flow_scene_change_detection.description.width == images[7].width
            &&& d.optical_flow_scene_change_detection.description.height == images[7].height
            &&& d.interpolation_rect.left == 0 && d.interpolation_rect.top == 0
            &&& s.display_w <= i32::MAX ==> d.interpolation_rect.width == s.display_w
            &&& s.display_h <= i32::MAX ==> d.interpolation_rect.height == s.display_h
            &&& d.dilated_depth == p.dilated_depth
            &&& d.dilated_motion_vectors == p.dilated_motion_vectors
            &&& d.reconstructed_prev_depth == p.reconstructed_prev_depth
            &&& !d.reset
        }),
{
}

/// The resources that the passes share are of the sizes that the SDK asks for, with four
/// bytes for each element of the reconstructed depth. What is read back, and what the
/// images are filled from, is in memory that the CPU can reach. Every image has the view
/// that the passes work on.
pub proof fn law_shared_resources_are_as_asked(
    s: Sizes,
    shared: FfxFrameInterpolationSharedResourceDescriptions,
    size: int,
    i: int,
)
    requires
        shared_fit(shared),
    ensures
        ({
            let plan = spec_plan(s, shared);
            let depth = shared.reconstructed_prev_nearest_depth;
            &&& plan.images[4].width == shared.dilated_depth.width
            &&& plan.images[4].height == shared.dilated_depth.height
            &&& plan.images[5].width == shared.dilated_motion_vectors.width
            &&& plan.images[5].height == shared.dilated_motion_vectors.height
            &&& plan.buffers[RECONSTRUCTED_PREV_DEPTH as int].size == depth.width * depth.height
                * 4
            &&& memory::for_cpu(plan.buffers[STAGING as int].memory)
            &&& memory::for_cpu(upload_buffer_of(size).memory)
            &&& 0 <= i < plan.images.len() ==> memory::view_needed(plan.images[i].kind)
        }),
{
    let depth = shared.reconstructed_prev_nearest_depth;
    let bytes = depth.width * depth.height * 4;
    assert(0 <= bytes) by (nonlinear_arith)
        requires
            bytes == depth.width * depth.height * 4,
            depth.width >= 0,
            depth.height >= 0,
    ;
}

} // verus!
