//! Block-matching optical flow in wgpu compute shaders.
//!
//! Pipeline: grayscale → block matching → warp + blend at a factor.

use vstd::prelude::*;

use crate::interpolate::backends::common;
use crate::interpolate::backends::common::{CacheAction, Upload, UploadData, UploadView};
use crate::interpolate::backends::fsr2;
use crate::interpolate::blend;
use crate::interpolate::error::InterpolateError;
use crate::interpolate::frame::{FrameView, GpuFrame};
use crate::proto::layout;
use crate::proto::wire;
use crate::vulkan::program;

verus! {

/// Pixels on each side of a block.
pub const BLOCK_SIZE: u32 = 8;

/// How far motion is searched for.
pub const SEARCH_RADIUS: u32 = 8;

/// Levels of the pyramid that motion vectors are sized for.
pub const LEVELS: u32 = 4;

/// Threads of a workgroup that works on single pixels.
pub const PIXEL_WORKGROUP: u32 = 256;

/// Threads on each side of a workgroup that works on a picture.
pub const WORKGROUP: u32 = 16;

/// Buffer of the first frame.
pub const FRAME_A: usize = 0;

/// Buffer of the second frame.
pub const FRAME_B: usize = 1;

/// Buffer of the parameters.
pub const PARAMS: usize = 2;

/// Parameters of the shaders.
#[derive(Debug, Clone, Copy, PartialEq, Eq, Structural)]
pub struct Params {
    pub width: u32,
    pub height: u32,
    pub level_width: u32,
    pub level_height: u32,
    /// Temporal position, as IEEE 754 single-precision bits.
    pub t: u32,
    pub block_size: u32,
    pub search_radius: u32,
}

impl Params {
    /// Bytes on the GPU, padded to a multiple of 16.
    pub open spec fn spec_bytes(self) -> Seq<u8> {
        wire::le32(self.width) + wire::le32(self.height) + wire::le32(self.level_width)
            + wire::le32(self.level_height) + wire::le32(self.t) + wire::le32(self.block_size)
            + wire::le32(self.search_radius) + wire::le32(0)
    }

    /// Bytes on the GPU.
    #[must_use]
    pub fn as_bytes(&self) -> (r: Vec<u8>)
        ensures
            r@ == self.spec_bytes(),
            r@.len() == 32,
    {
        let mut r: Vec<u8> = Vec::with_capacity(32);
        wire::put32(&mut r, self.width);
        wire::put32(&mut r, self.height);
        wire::put32(&mut r, self.level_width);
        wire::put32(&mut r, self.level_height);
        wire::put32(&mut r, self.t);
        wire::put32(&mut r, self.block_size);
        wire::put32(&mut r, self.search_radius);
        wire::put32(&mut r, 0);
        assert(r@ =~= self.spec_bytes());
        r
    }
}

/// Sizes of the buffers, in bytes.
#[derive(Debug, Clone, Copy, PartialEq, Eq)]
pub struct BufferSizes {
    /// Of each frame, of the output and of the buffer that it is read from.
    pub frame: u64,
    /// Of the luma of each frame.
    pub luma: u64,
    /// Of the three pyramid levels of each frame.
    pub pyramid: (u64, u64, u64),
    /// Of the motion vectors of each level.
    pub motion: u64,
    /// Of the parameters.
    pub params: u64,
}

/// Half of `n`, `level` times over.
pub open spec fn halved(n: int, level: nat) -> int
    decreases level,
{
    if level == 0 {
        n
    } else {
        halved(n / 2, (level - 1) as nat)
    }
}

/// Bytes of the motion vectors of a picture: two 32-bit numbers per block.
pub open spec fn motion_bytes(width: int, height: int) -> int {
    program::groups_of(width, BLOCK_SIZE as int) * program::groups_of(height, BLOCK_SIZE as int) * 8
}

/// The largest number of bytes that the motion vectors of a level take, over the
/// next `levels` levels of a picture.
pub open spec fn largest_motion(width: int, height: int, levels: nat) -> int
    decreases levels,
{
    if levels == 0 {
        0
    } else {
        let rest = largest_motion(width / 2, height / 2, (levels - 1) as nat);
        if motion_bytes(width, height) > rest {
            motion_bytes(width, height)
        } else {
            rest
        }
    }
}

/// The sizes for frames of these dimensions.
pub open spec fn sizes_for(width: u32, height: u32) -> BufferSizes {
    let frame = fsr2::frame_bytes(width, height);
    BufferSizes {
        frame: frame as u64,
        luma: frame as u64,
        pyramid: ((frame / 4) as u64, (frame / 16) as u64, (frame / 64) as u64),
        motion: largest_motion(width as int, height as int, LEVELS as nat) as u64,
        params: 32,
    }
}

proof fn lemma_motion_bound(width: int, height: int)
    requires
        0 <= width <= u32::MAX,
        0 <= height <= u32::MAX,
    ensures
        0 <= motion_bytes(width, height) <= 8 * 0x2000_0000 * 0x2000_0000,
{
    let x = program::groups_of(width, BLOCK_SIZE as int);
    let y = program::groups_of(height, BLOCK_SIZE as int);
    assert(x == (width + 7) / 8 && y == (height + 7) / 8);
    assert(0 <= x <= 0x2000_0000 && 0 <= y <= 0x2000_0000);
    assert(0 <= x * y <= 0x2000_0000 * 0x2000_0000) by (nonlinear_arith)
        requires
            0 <= x <= 0x2000_0000,
            0 <= y <= 0x2000_0000,
    ;
}

fn largest_motion_size(width: u32, height: u32, levels: u32) -> (r: u64)
    ensures
        r == largest_motion(width as int, height as int, levels as nat),
    decreases levels,
{
    if levels == 0 {
        return 0;
    }
    let rest: u64 = largest_motion_size(width / 2, height / 2, levels - 1);
    proof {
        lemma_motion_bound(width as int, height as int);
    }
    let blocks_x: u64 = program::groups(width, BLOCK_SIZE) as u64;
    let blocks_y: u64 = program::groups(height, BLOCK_SIZE) as u64;
    let here: u64 = blocks_x * blocks_y * 8;
    if here > rest {
        here
    } else {
        rest
    }
}

/// The sizes of the buffers for frames of these dimensions. The motion vectors
/// of every level have room for those of the largest one.
#[must_use]
pub fn buffer_sizes(width: u32, height: u32) -> (r: BufferSizes)
    requires
        width * height <= u32::MAX,
    ensures
        r == sizes_for(width, height),
{
    assert(0 <= width * height) by (nonlinear_arith)
        requires
            width >= 0,
            height >= 0,
    ;
    let frame: u64 = (width * height) as u64 * 4;
    BufferSizes {
        frame,
        luma: frame,
        pyramid: (frame / 4, frame / 16, frame / 64),
        motion: largest_motion_size(width, height, LEVELS),
        params: 32,
    }
}

/// A grid of workgroups for one of the shaders.
#[derive(Debug, Clone, Copy, PartialEq, Eq, Structural)]
pub struct Grid {
    pub x: u32,
    pub y: u32,
}

/// What one interpolation asks of the GPU: the parameters, what is written to
/// the buffers, and the grids of the grayscale, block matching and warp passes,
/// in that order.
#[derive(Debug)]
pub struct FlowWork<'a> {
    /// What to do with the buffers of the last call.
    pub cache: CacheAction,
    pub sizes: BufferSizes,
    pub params: Params,
    /// What is written to the buffers before the passes run.
    pub uploads: Vec<Upload<'a>>,
    pub grayscale: Grid,
    pub block_match: Grid,
    pub warp_blend: Grid,
    /// Number of bytes to read back.
    pub read_size: u64,
}

/// What an interpolation asks of the GPU.
#[verifier::ext_equal]
pub struct FlowWorkView {
    pub cache: CacheAction,
    pub sizes: BufferSizes,
    pub params: Params,
    pub uploads: Seq<UploadView>,
    pub grayscale: Grid,
    pub block_match: Grid,
    pub warp_blend: Grid,
    pub read_size: u64,
}

impl<'a> View for FlowWork<'a> {
    type V = FlowWorkView;

    open spec fn view(&self) -> FlowWorkView {
        FlowWorkView {
            cache: self.cache,
            sizes: self.sizes,
            params: self.params,
            uploads: common::uploads_of(self.uploads@),
            grayscale: self.grayscale,
            block_match: self.block_match,
            warp_blend: self.warp_blend,
            read_size: self.read_size,
        }
    }
}

/// The parameters for frames of these dimensions at a factor.
pub open spec fn params_for(width: u32, height: u32, t: u32) -> Params {
    Params {
        width,
        height,
        level_width: width,
        level_height: height,
        t,
        block_size: BLOCK_SIZE,
        search_radius: SEARCH_RADIUS,
    }
}

/// What an interpolation asks of the GPU.
pub open spec fn work_for(
    cached: Option<(u32, u32)>,
    a: FrameView,
    b: FrameView,
    t: u32,
) -> FlowWorkView {
    let width = a.width;
    let height = a.height;
    FlowWorkView {
        cache: common::cache_action_for(cached, width, height),
        sizes: sizes_for(width, height),
        params: params_for(width, height, t),
        uploads: common::frame_uploads_of(FRAME_A, a, FRAME_B, b).push(
            UploadView { buffer: PARAMS, data: params_for(width, height, t).spec_bytes() },
        ),
        grayscale: Grid {
            x: program::groups_of(width * height, PIXEL_WORKGROUP as int) as u32,
            y: 1,
        },
        block_match: Grid {
            x: program::groups_of(
                program::groups_of(width as int, BLOCK_SIZE as int),
                WORKGROUP as int,
            ) as u32,
            y: program::groups_of(
                program::groups_of(height as int, BLOCK_SIZE as int),
                WORKGROUP as int,
            ) as u32,
        },
        warp_blend: Grid {
            x: program::groups_of(width as int, WORKGROUP as int) as u32,
            y: program::groups_of(height as int, WORKGROUP as int) as u32,
        },
        read_size: fsr2::frame_bytes(width, height) as u64,
    }
}

/// The error of a device that could not be had from an adapter.
#[must_use]
pub fn device_failed(detail: &str) -> (r: InterpolateError)
    ensures
        r matches InterpolateError::InitFailed(m) && m@ == "wgpu device: "@ + detail@,
{
    let mut m = String::from_str("wgpu device: ");
    m.append(detail);
    InterpolateError::InitFailed(m)
}

/// Block-matching optical flow interpolator using wgpu compute shaders.
#[derive(Debug)]
pub struct WgpuOpticalFlowInterpolator {
    /// Dimensions that buffers exist for.
    cached: Option<(u32, u32)>,
}

impl WgpuOpticalFlowInterpolator {
    /// Dimensions that buffers exist for.
    pub closed spec fn spec_cached(self) -> Option<(u32, u32)> {
        self.cached
    }

    /// Create a new wgpu optical flow interpolator, once a device was found.
    ///
    /// # Errors
    ///
    /// No adapter was found.
    pub fn new(adapter_found: bool) -> (r: Result<WgpuOpticalFlowInterpolator, InterpolateError>)
        ensures
            if adapter_found {
                r matches Ok(i) && i.spec_cached() is None
            } else {
                r matches Err(InterpolateError::InitFailed(m)) && m@ == "no wgpu adapter found"@
            },
    {
        if adapter_found {
            Ok(WgpuOpticalFlowInterpolator { cached: None })
        } else {
            Err(InterpolateError::InitFailed(String::from_str("no wgpu adapter found")))
        }
    }

    /// The work to interpolate between two frames.
    ///
    /// # Errors
    ///
    /// The factor is out of range, or the frames differ in their dimensions.
    pub fn begin<'a>(&self, a: &'a GpuFrame, b: &'a GpuFrame, t: u32) -> (r: Result<
        FlowWork<'a>,
        InterpolateError,
    >)
        requires
            common::refusal(a@, b@, t) is None ==> fsr2::frame_bytes(a.width, a.height)
                <= u32::MAX,
        ensures
            match common::refusal(a@, b@, t) {
                Some(e) => r == Err::<FlowWork, _>(e),
                None => r matches Ok(work) && work@ == work_for(self.spec_cached(), a@, b@, t),
            },
    {
        match common::check_request(a, b, t) {
            Ok(_) => {},
            Err(e) => {
                return Err(e);
            },
        }
        let w: u32 = a.width;
        let h: u32 = a.height;
        assert(0 <= w * h <= w * h * 4) by (nonlinear_arith)
            requires
                w >= 0,
                h >= 0,
        ;
        let total_pixels: u32 = w * h;
        let blocks_x: u32 = program::groups(w, BLOCK_SIZE);
        let blocks_y: u32 = program::groups(h, BLOCK_SIZE);
        let params = Params {
            width: w,
            height: h,
            level_width: w,
            level_height: h,
            t,
            block_size: BLOCK_SIZE,
            search_radius: SEARCH_RADIUS,
        };
        let mut uploads = common::frame_uploads(FRAME_A, a, FRAME_B, b);
        let ghost frames = uploads@;
        uploads.push(Upload { buffer: PARAMS, data: UploadData::Made(params.as_bytes()) });
        assert(common::uploads_of(uploads@) =~= common::uploads_of(frames).push(uploads@[2]@));
        let work = FlowWork {
            cache: common::cache_action(self.cached, w, h),
            sizes: buffer_sizes(w, h),
            params,
            uploads,
            grayscale: Grid { x: program::groups(total_pixels, PIXEL_WORKGROUP), y: 1 },
            // Block matching directly on full-res luma: a full pyramid would
            // be better quality but this works for moderate motion.
            block_match: Grid {
                x: program::groups(blocks_x, WORKGROUP),
                y: program::groups(blocks_y, WORKGROUP),
            },
            warp_blend: Grid {
                x: program::groups(w, WORKGROUP),
                y: program::groups(h, WORKGROUP),
            },
            read_size: fsr2::frame_size(w, h),
        };
        assert(work@ =~= work_for(self.spec_cached(), a@, b@, t));
        Ok(work)
    }

    /// Note that buffers exist for these dimensions, or that none exist.
    pub fn set_cached(&mut self, dimensions: Option<(u32, u32)>)
        ensures
            final(self).spec_cached() == dimensions,
    {
        self.cached = dimensions;
    }

    /// The frame made of pixels that the GPU handed back.
    pub fn finish(a: &GpuFrame, b: &GpuFrame, t: u32, data: Vec<u8>) -> (r: GpuFrame)
        requires
            common::refusal(a@, b@, t) is None,
            blend::timestamp_fits(a@, b@, t),
        ensures
            r@ == common::frame_of(a@, b@, t, data@),
    {
        common::finished_frame(a, b, t, data)
    }

    /// Estimated ~2-5ms for 1080p depending on GPU: 3.0, as IEEE 754
    /// single-precision bits.
    #[must_use]
    pub fn latency_ms(&self) -> (r: u32)
        ensures
            r == 0x4040_0000,
    {
        0x4040_0000
    }

    /// Human-readable name of this backend.
    #[must_use]
    pub fn name(&self) -> (r: &'static str)
        ensures
            r@ == "wgpu-optical-flow"@,
    {
        "wgpu-optical-flow"
    }
}

proof fn lemma_motion_grows(w: int, h: int, width: int, height: int)
    requires
        0 <= w <= width,
        0 <= h <= height,
    ensures
        0 <= motion_bytes(w, h) <= motion_bytes(width, height),
{
    let a = program::groups_of(w, BLOCK_SIZE as int);
    let b = program::groups_of(h, BLOCK_SIZE as int);
    let c = program::groups_of(width, BLOCK_SIZE as int);
    let d = program::groups_of(height, BLOCK_SIZE as int);
    assert(a == (w + 7) / 8 && b == (h + 7) / 8 && c == (width + 7) / 8 && d == (height + 7) / 8);
    assert(0 <= a * b <= c * d) by (nonlinear_arith)
        requires
            0 <= a <= c,
            0 <= b <= d,
    ;
}

/// The full resolution is the level whose motion vectors take the most room.
pub proof fn law_full_resolution_is_largest(width: int, height: int, levels: nat)
    requires
        0 <= width,
        0 <= height,
        levels > 0,
    ensures
        largest_motion(width, height, levels) == motion_bytes(width, height),
    decreases levels,
{
    lemma_motion_grows(width / 2, height / 2, width, height);
    lemma_motion_grows(0, 0, width, height);
    if levels > 1 {
        law_full_resolution_is_largest(width / 2, height / 2, (levels - 1) as nat);
    } else {
        assert(largest_motion(width / 2, height / 2, 0) == 0);
    }
}

/// The motion vectors of every level fit into the buffer.
pub proof fn law_every_level_fits(width: int, height: int, levels: nat, level: nat)
    requires
        0 <= width,
        0 <= height,
        level < levels,
    ensures
        motion_bytes(halved(width, level), halved(height, level)) <= largest_motion(
            width,
            height,
            levels,
        ),
    decreases levels,
{
    if level > 0 {
        law_every_level_fits(width / 2, height / 2, (levels - 1) as nat, (level - 1) as nat);
    }
}

/// The frame made of the bytes that were asked for is complete, whatever sizes
/// earlier calls had: it has the size of the two frames, and four bytes for each
/// of its pixels.
pub proof fn law_finished_frame_is_complete(
    cached: Option<(u32, u32)>,
    a: FrameView,
    b: FrameView,
    t: u32,
    data: Seq<u8>,
)
    requires
        common::refusal(a, b, t) is None,
        fsr2::frame_bytes(a.width, a.height) <= u32::MAX,
        data.len() == work_for(cached, a, b, t).read_size,
    ensures
        ({
            let f = common::frame_of(a, b, t, data);
            &&& f.width == a.width
            &&& f.height == a.height
            &&& f.stride == a.stride
            &&& f.data.len() == f.width * f.height * 4
        }),
{
    assert(0 <= a.width * a.height * 4) by (nonlinear_arith)
        requires
            a.width >= 0,
            a.height >= 0,
    ;
}

/// The first buffer is filled with the pixels of the first frame, the second with
/// those of the second, and the third with the parameters, of which the fifth is the
/// factor. The parameters of the level are those of the frame: motion is searched
/// for at full resolution.
pub proof fn law_frames_and_factor_are_uploaded(
    cached: Option<(u32, u32)>,
    a: FrameView,
    b: FrameView,
    t: u32,
)
    ensures
        ({
            let u = work_for(cached, a, b, t).uploads;
            let params = u[2].data;
            &&& u.len() == 3
            &&& u[0].buffer == 0 && u[0].data == a.data
            &&& u[1].buffer == 1 && u[1].data == b.data
            &&& u[2].buffer == 2 && params.len() == 32
            &&& layout::word(params, 0) == a.width
            &&& layout::word(params, 4) == a.height
            &&& layout::word(params, 8) == a.width
            &&& layout::word(params, 12) == a.height
            &&& layout::word(params, 16) == t
            &&& layout::word(params, 20) == 8
            &&& layout::word(params, 24) == 8
            &&& layout::word(params, 28) == 0
        }),
{
    let p = params_for(a.width, a.height, t);
    let b0 = p.spec_bytes();
    assert(b0.subrange(0, 4) =~= wire::le32(p.width));
    wire::lemma_u32_at(b0, 0, p.width);
    assert(b0.subrange(4, 8) =~= wire::le32(p.height));
    wire::lemma_u32_at(b0, 4, p.height);
    assert(b0.subrange(8, 12) =~= wire::le32(p.level_width));
    wire::lemma_u32_at(b0, 8, p.level_width);
    assert(b0.subrange(12, 16) =~= wire::le32(p.level_height));
    wire::lemma_u32_at(b0, 12, p.level_height);
    assert(b0.subrange(16, 20) =~= wire::le32(p.t));
    wire::lemma_u32_at(b0, 16, p.t);
    assert(b0.subrange(20, 24) =~= wire::le32(p.block_size));
    wire::lemma_u32_at(b0, 20, p.block_size);
    assert(b0.subrange(24, 28) =~= wire::le32(p.search_radius));
    wire::lemma_u32_at(b0, 24, p.search_radius);
    assert(b0.subrange(28, 32) =~= wire::le32(0));
    wire::lemma_u32_at(b0, 28, 0);
    layout::law_numbers_are_little_endian(b0, 0, 0, 0, 0, 0);
    layout::law_numbers_are_little_endian(b0, 4, 0, 0, 0, 0);
    layout::law_numbers_are_little_endian(b0, 8, 0, 0, 0, 0);
    layout::law_numbers_are_little_endian(b0, 12, 0, 0, 0, 0);
    layout::law_numbers_are_little_endian(b0, 16, 0, 0, 0, 0);
    layout::law_numbers_are_little_endian(b0, 20, 0, 0, 0, 0);
    layout::law_numbers_are_little_endian(b0, 24, 0, 0, 0, 0);
    layout::law_numbers_are_little_endian(b0, 28, 0, 0, 0, 0);
}

/// The grids and the buffers take in the frame: every pixel has a thread of the
/// grayscale and of the warp pass, every block one of the block matching, and no
/// workgroup is without one. A frame and its luma have four bytes for each pixel,
/// each level of the pyramid a quarter of the one before, and every block has room
/// for a motion vector.
pub proof fn law_work_covers_the_frame(
    cached: Option<(u32, u32)>,
    a: FrameView,
    b: FrameView,
    t: u32,
)
    requires
        fsr2::frame_bytes(a.width, a.height) <= u32::MAX,
    ensures
        ({
            let work = work_for(cached, a, b, t);
            let pixels = a.width * a.height;
            let gray = work.grayscale.x * 256;
            let match_x = work.block_match.x * 128;
            let match_y = work.block_match.y * 128;
            let warp_x = work.warp_blend.x * 16;
            let warp_y = work.warp_blend.y * 16;
            &&& gray - 256 < pixels <= gray || pixels == gray == 0
            &&& work.grayscale.y == 1
            &&& match_x - 128 < a.width <= match_x || a.width == match_x == 0
            &&& match_y - 128 < a.height <= match_y || a.height == match_y == 0
            &&& warp_x - 16 < a.width <= warp_x || a.width == warp_x == 0
            &&& warp_y - 16 < a.height <= warp_y || a.height == warp_y == 0
            &&& work.sizes.frame == 4 * pixels
            &&& work.sizes.luma == 4 * pixels
            &&& work.sizes.pyramid.0 == pixels
            &&& work.sizes.pyramid.1 == work.sizes.pyramid.0 / 4
            &&& work.sizes.pyramid.2 == work.sizes.pyramid.1 / 4
            &&& work.sizes.motion == program::groups_of(a.width as int, 8) * program::groups_of(
                a.height as int,
                8,
            ) * 8
            &&& work.sizes.params == 32
            &&& work.read_size == 4 * pixels
        }),
{
    let w = a.width as int;
    let h = a.height as int;
    let pixels = w * h;
    assert(0 <= pixels) by (nonlinear_arith)
        requires
            pixels == w * h,
            w >= 0,
            h >= 0,
    ;
    program::law_groups_cover_all(pixels, 256);
    let x = program::groups_of(w, 8);
    let y = program::groups_of(h, 8);
    program::law_groups_cover_all(w, 8);
    program::law_groups_cover_all(h, 8);
    program::law_groups_cover_all(x, 16);
    program::law_groups_cover_all(y, 16);
    program::law_groups_cover_all(w, 16);
    program::law_groups_cover_all(h, 16);
    law_full_resolution_is_largest(w, h, 4);
    lemma_motion_bound(w, h);
}

} // verus!
