//! GPU-accelerated bilinear upscale with a blit.

use vstd::prelude::*;

use crate::vulkan::flow::{Content, Machine};
use crate::vulkan::memory;
use crate::vulkan::memory::{MemoryKind, ObjectKind};
use crate::vulkan::program;
use crate::vulkan::program::{BufferRequest, Format, ImageRequest, Layout, Plan, PlanView, Step};

verus! {

/// Buffer that the source picture is uploaded to.
pub const STAGING: usize = 0;

/// Buffer that the result is read from.
pub const READBACK: usize = 1;

/// Image of the source picture.
pub const SRC_IMAGE: usize = 0;

/// Image of the result.
pub const DST_IMAGE: usize = 1;

/// How a blit makes up pixels between those of its source.
#[derive(Debug, Clone, Copy, PartialEq, Eq, Structural)]
pub enum BlitFilter {
    /// The nearest pixel.
    Nearest,
    /// A weighted mean of the nearest pixels.
    Linear,
}

/// The filter of the upscale: bilinear.
#[must_use]
pub fn filter() -> (r: BlitFilter)
    ensures
        r == BlitFilter::Linear,
{
    BlitFilter::Linear
}

/// Whether the byte size of a picture can be represented.
pub open spec fn picture_fits(width: u32, height: u32) -> bool {
    width * height * 4 <= u64::MAX
}

/// The resources of an upscale.
pub open spec fn spec_plan(src_w: u32, src_h: u32, dst_w: u32, dst_h: u32) -> PlanView {
    PlanView {
        buffers: seq![
            BufferRequest {
                size: (src_w * src_h * 4) as u64,
                storage: false,
                transfer_src: true,
                transfer_dst: false,
                memory: MemoryKind::Host,
            },
            BufferRequest {
                size: (dst_w * dst_h * 4) as u64,
                storage: false,
                transfer_src: false,
                transfer_dst: true,
                memory: MemoryKind::Host,
            },
        ],
        images: seq![
            ImageRequest {
                width: src_w,
                height: src_h,
                format: Format::Rgba8,
                kind: ObjectKind::Image,
            },
            ImageRequest {
                width: dst_w,
                height: dst_h,
                format: Format::Rgba8,
                kind: ObjectKind::Image,
            },
        ],
        bindings: seq![],
    }
}

/// The commands of an upscale.
pub open spec fn spec_program(src_w: u32, src_h: u32, dst_w: u32, dst_h: u32) -> Seq<Step> {
    seq![
        program::simple_barrier_of(SRC_IMAGE, Layout::Undefined, Layout::TransferDst),
        Step::CopyBufferToImage {
            buffer: STAGING,
            image: SRC_IMAGE,
            width: src_w,
            height: src_h,
        },
        program::simple_barrier_of(SRC_IMAGE, Layout::TransferDst, Layout::TransferSrc),
        program::simple_barrier_of(DST_IMAGE, Layout::Undefined, Layout::TransferDst),
        Step::Blit { src: SRC_IMAGE, dst: DST_IMAGE },
        program::simple_barrier_of(DST_IMAGE, Layout::TransferDst, Layout::TransferSrc),
        Step::CopyImageToBuffer {
            image: DST_IMAGE,
            buffer: READBACK,
            width: dst_w,
            height: dst_h,
        },
    ]
}

fn picture_size(width: u32, height: u32) -> (r: u64)
    requires
        picture_fits(width, height),
    ensures
        r == width * height * 4,
{
    assert(width * height <= u64::MAX && 0 <= width * height) by (nonlinear_arith)
        requires
            width * height * 4 <= u64::MAX,
            width >= 0,
            height >= 0,
    ;
    width as u64 * height as u64 * 4
}

/// The resources to upscale a picture from one resolution to another.
#[must_use]
pub fn plan(src_w: u32, src_h: u32, dst_w: u32, dst_h: u32) -> (r: Plan)
    requires
        picture_fits(src_w, src_h),
        picture_fits(dst_w, dst_h),
    ensures
        r@ == spec_plan(src_w, src_h, dst_w, dst_h),
{
    let mut buffers: Vec<BufferRequest> = Vec::new();
    buffers.push(
        BufferRequest {
            size: picture_size(src_w, src_h),
            storage: false,
            transfer_src: true,
            transfer_dst: false,
            memory: MemoryKind::Host,
        },
    );
    buffers.push(
        BufferRequest {
            size: picture_size(dst_w, dst_h),
            storage: false,
            transfer_src: false,
            transfer_dst: true,
            memory: MemoryKind::Host,
        },
    );
    let mut images: Vec<ImageRequest> = Vec::new();
    images.push(
        ImageRequest {
            width: src_w,
            height: src_h,
            format: Format::Rgba8,
            kind: ObjectKind::Image,
        },
    );
    images.push(
        ImageRequest {
            width: dst_w,
            height: dst_h,
            format: Format::Rgba8,
            kind: ObjectKind::Image,
        },
    );
    let r = Plan { buffers, images, bindings: Vec::new() };
    assert(r@ =~= spec_plan(src_w, src_h, dst_w, dst_h));
    r
}

/// The commands to upscale a picture from one resolution to another: upload,
/// blit, read back.
#[must_use]
pub fn upscale_blit(src_w: u32, src_h: u32, dst_w: u32, dst_h: u32) -> (r: Vec<Step>)
    ensures
        r@ == spec_program(src_w, src_h, dst_w, dst_h),
{
    let mut r: Vec<Step> = Vec::new();
    r.push(program::simple_barrier(SRC_IMAGE, Layout::Undefined, Layout::TransferDst));
    r.push(
        Step::CopyBufferToImage {
            buffer: STAGING,
            image: SRC_IMAGE,
            width: src_w,
            height: src_h,
        },
    );
    r.push(program::simple_barrier(SRC_IMAGE, Layout::TransferDst, Layout::TransferSrc));
    r.push(program::simple_barrier(DST_IMAGE, Layout::Undefined, Layout::TransferDst));
    r.push(Step::Blit { src: SRC_IMAGE, dst: DST_IMAGE });
    r.push(program::simple_barrier(DST_IMAGE, Layout::TransferDst, Layout::TransferSrc));
    r.push(
        Step::CopyImageToBuffer {
            image: DST_IMAGE,
            buffer: READBACK,
            width: dst_w,
            height: dst_h,
        },
    );
    assert(r@ =~= spec_program(src_w, src_h, dst_w, dst_h));
    r
}

/// The commands of an upscale are sound on its resources.
pub proof fn law_upscale_is_sound(src_w: u32, src_h: u32, dst_w: u32, dst_h: u32)
    requires
        picture_fits(src_w, src_h),
        picture_fits(dst_w, dst_h),
    ensures
        program::sound(
            spec_plan(src_w, src_h, dst_w, dst_h),
            program::all_in(spec_plan(src_w, src_h, dst_w, dst_h), Layout::Undefined),
            spec_program(src_w, src_h, dst_w, dst_h),
        ),
{
    let p = spec_plan(src_w, src_h, dst_w, dst_h);
    let s = spec_program(src_w, src_h, dst_w, dst_h);
    let start = program::all_in(p, Layout::Undefined);
    assert(0 <= src_w * src_h * 4 && 0 <= dst_w * dst_h * 4) by (nonlinear_arith)
        requires
            src_w >= 0,
            src_h >= 0,
            dst_w >= 0,
            dst_h >= 0,
    ;
    reveal(program::sound);
    reveal_with_fuel(program::layouts_after, 8);
    assert(program::layouts_after(start, s, 1) =~= seq![Layout::TransferDst, Layout::Undefined]);
    assert(program::layouts_after(start, s, 3) =~= seq![Layout::TransferSrc, Layout::Undefined]);
    assert(program::layouts_after(start, s, 4) =~= seq![Layout::TransferSrc, Layout::TransferDst]);
    assert(program::layouts_after(start, s, 6) =~= seq![Layout::TransferSrc, Layout::TransferSrc]);
}

/// What is read back of an upscale is the uploaded picture, scaled to the size
/// that was asked for.
pub proof fn law_picture_comes_back_scaled(
    src_w: u32,
    src_h: u32,
    dst_w: u32,
    dst_h: u32,
    pixels: Seq<u8>,
)
    requires
        picture_fits(src_w, src_h),
        picture_fits(dst_w, dst_h),
        pixels.len() == src_w * src_h * 4,
    ensures
        ({
            let m = Machine {
                plan: spec_plan(src_w, src_h, dst_w, dst_h),
                pass_buffers: seq![],
                discards: true,
                overlaps: false,
            };
            let start = m.written(m.blank(), STAGING, pixels);
            let end = m.done(start, spec_program(src_w, src_h, dst_w, dst_h));
            &&& end.buffers[READBACK as int].content == (Content::Scaled {
                source: Box::new(Content::Written(pixels)),
                width: dst_w,
                height: dst_h,
            })
            &&& m.plan.buffers[READBACK as int].size == dst_w * dst_h * 4
        }),
{
    let m = Machine {
        plan: spec_plan(src_w, src_h, dst_w, dst_h),
        pass_buffers: seq![],
        discards: true,
        overlaps: false,
    };
    assert(0 <= src_w * src_h * 4 && 0 <= dst_w * dst_h * 4) by (nonlinear_arith)
        requires
            src_w >= 0,
            src_h >= 0,
            dst_w >= 0,
            dst_h >= 0,
    ;
    let start = m.written(m.blank(), STAGING, pixels);
    let steps = spec_program(src_w, src_h, dst_w, dst_h);
    assert(m.after(start, steps, 0) == start);
    let m1 = m.after(start, steps, 1);
    let m2 = m.after(start, steps, 2);
    assert(m2.images[SRC_IMAGE as int].content == Content::Written(pixels));
    let m3 = m.after(start, steps, 3);
    let m4 = m.after(start, steps, 4);
    assert(m4.images[SRC_IMAGE as int].content == Content::Written(pixels));
    let m5 = m.after(start, steps, 5);
    let m6 = m.after(start, steps, 6);
    let m7 = m.after(start, steps, 7);
    assert(m7.buffers[READBACK as int].content == m5.images[DST_IMAGE as int].content);
}

/// Both buffers are in memory that the CPU can reach, and the two images have the sizes of
/// the picture and of the result.
pub proof fn law_both_buffers_are_for_the_cpu(src_w: u32, src_h: u32, dst_w: u32, dst_h: u32)
    ensures
        ({
            let plan = spec_plan(src_w, src_h, dst_w, dst_h);
            &&& memory::for_cpu(plan.buffers[STAGING as int].memory)
            &&& memory::for_cpu(plan.buffers[READBACK as int].memory)
            &&& plan.images[SRC_IMAGE as int].width == src_w
            &&& plan.images[SRC_IMAGE as int].height == src_h
            &&& plan.images[DST_IMAGE as int].width == dst_w
            &&& plan.images[DST_IMAGE as int].height == dst_h
        }),
{
}

} // verus!
