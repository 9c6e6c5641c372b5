//! What the GPU backends have in common.

use vstd::prelude::*;

use crate::interpolate::blend;
use crate::interpolate::error::InterpolateError;
use crate::interpolate::factor;
use crate::interpolate::frame::{FrameView, GpuFrame};
use crate::vulkan::flow::{Cell, Content, Contents, Machine};
use crate::vulkan::program::{Plan, PlanView, Step};

verus! {

/// What to do with the resources of the last call.
#[derive(Debug, Clone, Copy, PartialEq, Eq, Structural)]
pub enum CacheAction {
    /// Use them again.
    Keep,
    /// There are none: create them.
    Create,
    /// They are for other dimensions: destroy them, then create new ones.
    Replace,
}

/// What to do with the resources of the last call, for frames of this size.
pub open spec fn cache_action_for(cached: Option<(u32, u32)>, width: u32, height: u32) -> CacheAction {
    match cached {
        Some((w, h)) => if w == width && h == height {
            CacheAction::Keep
        } else {
            CacheAction::Replace
        },
        None => CacheAction::Create,
    }
}

/// What to do with the resources of the last call, for frames of this size.
#[must_use]
pub fn cache_action(cached: Option<(u32, u32)>, width: u32, height: u32) -> (r: CacheAction)
    ensures
        r == cache_action_for(cached, width, height),
{
    match cached {
        Some((w, h)) => if w == width && h == height {
            CacheAction::Keep
        } else {
            CacheAction::Replace
        },
        None => CacheAction::Create,
    }
}

/// Why two frames cannot be interpolated at a factor, if they cannot.
pub open spec fn refusal(a: FrameView, b: FrameView, t: u32) -> Option<InterpolateError> {
    if !factor::in_unit_range(t) {
        Some(InterpolateError::InvalidFactor(t))
    } else if !a.same_dimensions(b) {
        Some(InterpolateError::DimensionMismatch(a.width, a.height, b.width, b.height))
    } else {
        None
    }
}

/// Check the factor and the frames before any work is done on them.
pub fn check_request(a: &GpuFrame, b: &GpuFrame, t: u32) -> (r: Result<(), InterpolateError>)
    ensures
        match refusal(a@, b@, t) {
            Some(e) => r == Err::<(), _>(e),
            None => r is Ok,
        },
{
    if !factor::is_in_unit_range(t) {
        return Err(InterpolateError::InvalidFactor(t));
    }
    if !a.same_dimensions(b) {
        return Err(InterpolateError::DimensionMismatch(a.width, a.height, b.width, b.height));
    }
    Ok(())
}

/// The frame made of pixels that the GPU handed back.
pub open spec fn frame_of(a: FrameView, b: FrameView, t: u32, data: Seq<u8>) -> FrameView {
    FrameView {
        data,
        width: a.width,
        height: a.height,
        stride: a.stride,
        timestamp_ns: factor::timestamp_between(a.timestamp_ns, b.timestamp_ns, t) as u64,
    }
}

/// The frame made of pixels that the GPU handed back: of the layout of `a`, with
/// a timestamp between those of `a` and `b`.
pub fn finished_frame(a: &GpuFrame, b: &GpuFrame, t: u32, data: Vec<u8>) -> (r: GpuFrame)
    requires
        refusal(a@, b@, t) is None,
        blend::timestamp_fits(a@, b@, t),
    ensures
        r@ == frame_of(a@, b@, t, data@),
{
    GpuFrame {
        data,
        width: a.width,
        height: a.height,
        stride: a.stride,
        timestamp_ns: factor::timestamp_at(a.timestamp_ns, b.timestamp_ns, t),
    }
}

/// Bytes for a buffer or an image.
#[derive(Debug)]
pub enum UploadData<'a> {
    /// Pixels of a frame.
    Pixels(&'a [u8]),
    /// Bytes that were made for the buffer.
    Made(Vec<u8>),
}

/// Bytes to write to the start of a buffer before commands run.
#[derive(Debug)]
pub struct Upload<'a> {
    /// The buffer.
    pub buffer: usize,
    /// What is written to it.
    pub data: UploadData<'a>,
}

/// What is written to which buffer.
#[verifier::ext_equal]
pub struct UploadView {
    pub buffer: usize,
    pub data: Seq<u8>,
}

impl<'a> View for UploadData<'a> {
    type V = Seq<u8>;

    open spec fn view(&self) -> Seq<u8> {
        match self {
            UploadData::Pixels(pixels) => pixels@,
            UploadData::Made(bytes) => bytes@,
        }
    }
}

impl<'a> UploadData<'a> {
    /// The bytes.
    #[must_use]
    pub fn bytes(&self) -> (r: &[u8])
        ensures
            r@ == self@,
    {
        match self {
            UploadData::Pixels(pixels) => *pixels,
            UploadData::Made(bytes) => bytes.as_slice(),
        }
    }
}

impl<'a> View for Upload<'a> {
    type V = UploadView;

    open spec fn view(&self) -> UploadView {
        UploadView { buffer: self.buffer, data: self.data@ }
    }
}

impl<'a> Upload<'a> {
    /// What is written to the buffer.
    #[must_use]
    pub fn bytes(&self) -> (r: &[u8])
        ensures
            r@ == self@.data,
    {
        self.data.bytes()
    }
}

/// Bytes to fill the top left of an image with before commands run.
#[derive(Debug)]
pub struct ImageUpload<'a> {
    /// The image.
    pub image: usize,
    /// Width of what is filled, in pixels.
    pub width: u32,
    /// Height of what is filled, in pixels.
    pub height: u32,
    /// What it is filled with.
    pub data: UploadData<'a>,
}

/// What fills which part of which image.
#[verifier::ext_equal]
pub struct ImageUploadView {
    pub image: usize,
    pub width: u32,
    pub height: u32,
    pub data: Seq<u8>,
}

impl<'a> View for ImageUpload<'a> {
    type V = ImageUploadView;

    open spec fn view(&self) -> ImageUploadView {
        ImageUploadView {
            image: self.image,
            width: self.width,
            height: self.height,
            data: self.data@,
        }
    }
}

/// What fills which images, in order.
pub open spec fn image_uploads_of(uploads: Seq<ImageUpload>) -> Seq<ImageUploadView> {
    Seq::new(uploads.len(), |i: int| uploads[i]@)
}

/// What is written to which buffers, in order.
pub open spec fn uploads_of(uploads: Seq<Upload>) -> Seq<UploadView> {
    Seq::new(uploads.len(), |i: int| uploads[i]@)
}

/// The uploads of two frames.
pub open spec fn frame_uploads_of(
    buffer_a: usize,
    a: FrameView,
    buffer_b: usize,
    b: FrameView,
) -> Seq<UploadView> {
    seq![
        UploadView { buffer: buffer_a, data: a.data },
        UploadView { buffer: buffer_b, data: b.data },
    ]
}

/// The uploads of two frames.
#[must_use]
pub fn frame_uploads<'a>(
    buffer_a: usize,
    a: &'a GpuFrame,
    buffer_b: usize,
    b: &'a GpuFrame,
) -> (r: Vec<Upload<'a>>)
    ensures
        uploads_of(r@) == frame_uploads_of(buffer_a, a@, buffer_b, b@),
{
    let mut r: Vec<Upload<'a>> = Vec::new();
    r.push(Upload { buffer: buffer_a, data: UploadData::Pixels(a.data.as_slice()) });
    r.push(Upload { buffer: buffer_b, data: UploadData::Pixels(b.data.as_slice()) });
    assert(uploads_of(r@) =~= frame_uploads_of(buffer_a, a@, buffer_b, b@));
    r
}

/// A piece of work for the GPU.
#[derive(Debug)]
pub struct GpuWork<'a> {
    /// What to do with the resources of the last call.
    pub cache: CacheAction,
    /// The resources, to be created unless they are kept.
    pub plan: Plan,
    /// What is written to the buffers before the commands run.
    pub uploads: Vec<Upload<'a>>,
    /// The commands.
    pub program: Vec<Step>,
    /// Number of bytes to read back.
    pub read_size: u64,
}

/// What a piece of work is.
#[verifier::ext_equal]
pub struct WorkView {
    pub cache: CacheAction,
    pub plan: PlanView,
    pub uploads: Seq<UploadView>,
    pub program: Seq<Step>,
    pub read_size: u64,
}

impl<'a> View for GpuWork<'a> {
    type V = WorkView;

    open spec fn view(&self) -> WorkView {
        WorkView {
            cache: self.cache,
            plan: self.plan@,
            uploads: uploads_of(self.uploads@),
            program: self.program@,
            read_size: self.read_size,
        }
    }
}

/// What a machine holds after the CPU wrote to its buffers.
pub open spec fn contents_after_uploads(
    machine: Machine,
    m: Contents,
    uploads: Seq<UploadView>,
) -> Contents
    decreases uploads.len(),
{
    if uploads.len() == 0 {
        m
    } else {
        machine.written(
            contents_after_uploads(machine, m, uploads.drop_last()),
            uploads.last().buffer,
            uploads.last().data,
        )
    }
}

/// The uploads of two frames fill the two buffers, each with the pixels of its
/// frame, and leave the others alone.
pub proof fn law_both_frames_are_uploaded(
    machine: Machine,
    m: Contents,
    buffer_a: usize,
    a: FrameView,
    buffer_b: usize,
    b: FrameView,
    i: int,
)
    requires
        buffer_a != buffer_b,
        buffer_a < m.buffers.len(),
        buffer_b < m.buffers.len(),
        a.data.len() == machine.plan.buffers[buffer_a as int].size,
        b.data.len() == machine.plan.buffers[buffer_b as int].size,
    ensures
        ({
            let end = contents_after_uploads(
                machine,
                m,
                frame_uploads_of(buffer_a, a, buffer_b, b),
            );
            &&& end.buffers.len() == m.buffers.len()
            &&& end.buffers[buffer_a as int] == Cell::ready(Content::Written(a.data))
            &&& end.buffers[buffer_b as int] == Cell::ready(Content::Written(b.data))
            &&& 0 <= i < m.buffers.len() && i != buffer_a && i != buffer_b ==> end.buffers[i]
                == m.buffers[i]
            &&& end.images == m.images
        }),
{
    let uploads = frame_uploads_of(buffer_a, a, buffer_b, b);
    assert(uploads.drop_last().drop_last() =~= Seq::empty());
    reveal_with_fuel(contents_after_uploads, 3);
}

/// Layout of a shader pass.
#[derive(Debug, Clone, Copy, PartialEq, Eq, Structural)]
pub struct PassLayout {
    /// Number of storage buffers, bound to the numbers from 0.
    pub bindings: u32,
    /// Bytes of push constants.
    pub constant_bytes: u32,
}

/// Resources are used again exactly where they are for the dimensions of the
/// frames; others are destroyed before new ones are created.
pub proof fn law_resources_fit_the_frames(cached: Option<(u32, u32)>, width: u32, height: u32)
    ensures
        ({
            let action = cache_action_for(cached, width, height);
            &&& action == CacheAction::Keep <==> cached == Some((width, height))
            &&& action == CacheAction::Create <==> cached is None
        }),
{
}

/// Frames are refused exactly where the factor is out of range or their width,
/// height or stride differs, and the factor is looked at first.
pub proof fn law_only_matching_frames_are_taken(a: FrameView, b: FrameView, t: u32)
    ensures
        match refusal(a, b, t) {
            None => {
                &&& factor::in_unit_range(t)
                &&& a.width == b.width && a.height == b.height && a.stride == b.stride
            },
            Some(InterpolateError::InvalidFactor(f)) => f == t && !factor::in_unit_range(t),
            Some(InterpolateError::DimensionMismatch(aw, ah, bw, bh)) => {
                &&& factor::in_unit_range(t)
                &&& aw == a.width && ah == a.height && bw == b.width && bh == b.height
                &&& aw != bw || ah != bh || a.stride != b.stride
            },
            Some(_) => false,
        },
{
}

/// A finished frame holds what the GPU handed back, in the layout of the first
/// frame, and lies between the two in time: as far from the first as the factor says,
/// where they are in order and at most 2^29 nanoseconds apart, and at the first where
/// they are not in order.
pub proof fn law_finished_frame_lies_between(a: FrameView, b: FrameView, t: u32, data: Seq<u8>)
    requires
        refusal(a, b, t) is None,
    ensures
        ({
            let f = frame_of(a, b, t, data);
            let d = vstd::arithmetic::power2::pow2(factor::exponent(t));
            let past = f.timestamp_ns - a.timestamp_ns;
            let apart = b.timestamp_ns - a.timestamp_ns;
            &&& f.data == data
            &&& f.width == a.width && f.height == a.height && f.stride == a.stride
            &&& 0 <= apart <= 0x2000_0000 ==> {
                &&& a.timestamp_ns <= f.timestamp_ns <= b.timestamp_ns
                &&& past * d <= apart * factor::significand(t) < (past + 1) * d
            }
            &&& apart < 0 ==> f.timestamp_ns == a.timestamp_ns
        }),
{
    if a.timestamp_ns <= b.timestamp_ns {
        factor::law_timestamp_stays_between(a.timestamp_ns, b.timestamp_ns, t);
    }
    factor::law_timestamp_is_linear(a.timestamp_ns, b.timestamp_ns, t);
}

} // verus!
