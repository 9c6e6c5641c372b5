//! Frames in CPU memory.

use vstd::prelude::*;

verus! {

/// A frame in CPU memory ready for interpolation.
///
/// Contains raw RGBA pixel data and metadata. This is the interchange
/// format between pipeline stages — GPU backends copy data to/from
/// device memory internally.
#[derive(Debug)]
#[must_use]
pub struct GpuFrame {
    /// Raw pixel data in BGRA/XRGB 8888 format.
    pub data: Vec<u8>,
    /// Frame width in pixels.
    pub width: u32,
    /// Frame height in pixels.
    pub height: u32,
    /// Bytes per row (may include padding).
    pub stride: u32,
    /// Capture timestamp in nanoseconds.
    pub timestamp_ns: u64,
}

/// What a frame is.
#[verifier::ext_equal]
pub struct FrameView {
    pub data: Seq<u8>,
    pub width: u32,
    pub height: u32,
    pub stride: u32,
    pub timestamp_ns: u64,
}

impl FrameView {
    /// Whether two frames have the same layout.
    pub open spec fn same_dimensions(self, other: FrameView) -> bool {
        self.width == other.width && self.height == other.height && self.stride == other.stride
    }
}

impl View for GpuFrame {
    type V = FrameView;

    open spec fn view(&self) -> FrameView {
        FrameView {
            data: self.data@,
            width: self.width,
            height: self.height,
            stride: self.stride,
            timestamp_ns: self.timestamp_ns,
        }
    }
}

impl GpuFrame {
    /// Create a new frame with the given dimensions.
    ///
    /// Allocates `stride * height` bytes zeroed.
    pub fn new(width: u32, height: u32, stride: u32, timestamp_ns: u64) -> (r: GpuFrame)
        requires
            stride * height <= u32::MAX,
        ensures
            r@ == (FrameView {
                data: Seq::new((stride * height) as nat, |i: int| 0u8),
                width,
                height,
                stride,
                timestamp_ns,
            }),
    {
        let r = GpuFrame {
            data: vec![0u8; (stride * height) as usize],
            width,
            height,
            stride,
            timestamp_ns,
        };
        assert(r@.data =~= Seq::new((stride * height) as nat, |i: int| 0u8));
        r
    }

    /// Create a frame from existing pixel data.
    pub fn from_data(
        data: Vec<u8>,
        width: u32,
        height: u32,
        stride: u32,
        timestamp_ns: u64,
    ) -> (r: GpuFrame)
        ensures
            r == (GpuFrame { data, width, height, stride, timestamp_ns }),
    {
        GpuFrame { data, width, height, stride, timestamp_ns }
    }

    /// Total size in bytes of the pixel data.
    #[must_use]
    pub fn byte_size(&self) -> (r: usize)
        ensures
            r == self@.data.len(),
    {
        self.data.len()
    }

    /// Number of pixels (width × height).
    #[must_use]
    pub fn pixel_count(&self) -> (r: u64)
        ensures
            r == self.width * self.height,
    {
        proof {
            vstd::arithmetic::mul::lemma_mul_upper_bound(
                self.width as int,
                u32::MAX as int,
                self.height as int,
                u32::MAX as int,
            );
            vstd::arithmetic::mul::lemma_mul_nonnegative(self.width as int, self.height as int);
        }
        self.width as u64 * self.height as u64
    }

    /// Check if this frame has the same dimensions as another.
    #[must_use]
    pub fn same_dimensions(&self, other: &GpuFrame) -> (r: bool)
        ensures
            r == self@.same_dimensions(other@),
    {
        self.width == other.width && self.height == other.height && self.stride == other.stride
    }
}

} // verus!
