//! GPU work as data: the buffers and images it needs, and its commands.
//!
//! A plan lists resources, a program lists commands on them, by index. What it
//! takes for a program to be sound on a plan is stated here; that the programs
//! of the backends are sound is proved where they are defined.

use vstd::prelude::*;

use crate::proto::layout;
use crate::proto::wire;
use crate::vulkan::memory::{MemoryKind, ObjectKind};

verus! {

/// Layout of an image.
#[derive(Debug, Clone, Copy, PartialEq, Eq, Structural)]
pub enum Layout {
    /// Contents unknown.
    Undefined,
    /// Any access.
    General,
    /// Source of copies.
    TransferSrc,
    /// Destination of copies.
    TransferDst,
    /// Read by shaders.
    ShaderRead,
}

/// Format of the pixels of an image.
#[derive(Debug, Clone, Copy, PartialEq, Eq, Structural)]
pub enum Format {
    /// Four channels of 8 bits.
    Rgba8,
    /// Four channels of 16-bit floating point.
    Rgba16Float,
    /// One channel of 32-bit floating point.
    R32Float,
    /// Two channels of 16-bit floating point.
    Rg16Float,
    /// One channel of 8 bits.
    R8,
}

impl Format {
    /// Bytes of one pixel.
    pub open spec fn pixel_bytes(self) -> int {
        match self {
            Format::Rgba8 => 4,
            Format::Rgba16Float => 8,
            Format::R32Float => 4,
            Format::Rg16Float => 4,
            Format::R8 => 1,
        }
    }
}

/// Stage of the GPU pipeline.
#[derive(Debug, Clone, Copy, PartialEq, Eq, Structural)]
pub enum Stage {
    /// Before everything.
    Top,
    /// Copies.
    Transfer,
    /// Compute shaders.
    Compute,
}

/// Kinds of memory access.
#[derive(Debug, Clone, Copy, PartialEq, Eq, Structural)]
pub enum Access {
    Nothing,
    TransferRead,
    TransferWrite,
    ShaderRead,
    ShaderWrite,
    ShaderReadWrite,
}

/// A buffer that is needed.
#[derive(Debug, Clone, Copy, PartialEq, Eq, Structural)]
pub struct BufferRequest {
    /// Bytes.
    pub size: u64,
    /// Read or written by shaders.
    pub storage: bool,
    /// Source of copies.
    pub transfer_src: bool,
    /// Destination of copies.
    pub transfer_dst: bool,
    /// Where it lives.
    pub memory: MemoryKind,
}

/// An image that is needed. Images can be the source and the destination of
/// copies; the kind says what else they are for.
#[derive(Debug, Clone, Copy, PartialEq, Eq, Structural)]
pub struct ImageRequest {
    pub width: u32,
    pub height: u32,
    pub format: Format,
    pub kind: ObjectKind,
}

/// A buffer that is bound to a shader pass.
#[derive(Debug, Clone, Copy, PartialEq, Eq, Structural)]
pub struct Binding {
    /// Index of the pass.
    pub pass: usize,
    /// Binding number in the shader.
    pub binding: u32,
    /// Index of the buffer; all of it is bound.
    pub buffer: usize,
}

/// The resources of a piece of GPU work.
#[derive(Debug)]
pub struct Plan {
    pub buffers: Vec<BufferRequest>,
    pub images: Vec<ImageRequest>,
    pub bindings: Vec<Binding>,
}

/// What a plan is.
#[verifier::ext_equal]
pub struct PlanView {
    pub buffers: Seq<BufferRequest>,
    pub images: Seq<ImageRequest>,
    pub bindings: Seq<Binding>,
}

impl View for Plan {
    type V = PlanView;

    open spec fn view(&self) -> PlanView {
        PlanView {
            buffers: self.buffers@,
            images: self.images@,
            bindings: self.bindings@,
        }
    }
}

/// Push constants shared between motion estimation and warp/blend shaders.
#[derive(Debug, Clone, Copy, PartialEq, Eq, Structural)]
pub struct PushConstants {
    pub width: u32,
    pub height: u32,
    /// Temporal position, as IEEE 754 single-precision bits.
    pub t: u32,
    pub block_size: u32,
    pub search_radius: u32,
}

impl PushConstants {
    /// Bytes on the GPU.
    pub open spec fn spec_bytes(self) -> Seq<u8> {
        wire::le32(self.width) + wire::le32(self.height) + wire::le32(self.t) + wire::le32(
            self.block_size,
        ) + wire::le32(self.search_radius)
    }

    /// Bytes on the GPU.
    #[must_use]
    pub fn as_bytes(&self) -> (r: Vec<u8>)
        ensures
            r@ == self.spec_bytes(),
            r@.len() == 20,
    {
        let mut r: Vec<u8> = Vec::with_capacity(20);
        wire::put32(&mut r, self.width);
        wire::put32(&mut r, self.height);
        wire::put32(&mut r, self.t);
        wire::put32(&mut r, self.block_size);
        wire::put32(&mut r, self.search_radius);
        assert(r@ =~= self.spec_bytes());
        r
    }
}

/// Push constants for the `flow_convert` shader (f16 → f32 conversion).
#[derive(Debug, Clone, Copy, PartialEq, Eq, Structural)]
pub struct FlowConvertPc {
    pub count: u32,
}

impl FlowConvertPc {
    /// Bytes on the GPU.
    #[must_use]
    pub fn as_bytes(&self) -> (r: Vec<u8>)
        ensures
            r@ == wire::le32(self.count),
            r@.len() == 4,
    {
        let mut r: Vec<u8> = Vec::with_capacity(4);
        wire::put32(&mut r, self.count);
        assert(r@ =~= wire::le32(self.count));
        r
    }
}

/// Push constants of a shader pass.
#[derive(Debug, Clone, Copy, PartialEq, Eq, Structural)]
pub enum PassConstants {
    Warp(PushConstants),
    FlowConvert(FlowConvertPc),
}

impl PassConstants {
    /// Bytes on the GPU.
    pub open spec fn spec_bytes(self) -> Seq<u8> {
        match self {
            PassConstants::Warp(c) => c.spec_bytes(),
            PassConstants::FlowConvert(c) => wire::le32(c.count),
        }
    }

    /// Bytes on the GPU.
    #[must_use]
    pub fn as_bytes(&self) -> (r: Vec<u8>)
        ensures
            r@ == self.spec_bytes(),
    {
        match self {
            PassConstants::Warp(c) => c.as_bytes(),
            PassConstants::FlowConvert(c) => c.as_bytes(),
        }
    }
}

/// Work on the GPU that an SDK or the driver records.
#[derive(Debug, Clone, Copy, PartialEq, Eq, Structural)]
pub enum SdkWork {
    /// The optical flow engine: reads images 0 and 1, writes image 2.
    OpticalFlow,
    /// The FSR upscaler: reads images 0 to 2, writes image 3.
    Upscale,
    /// The prepare pass of frame generation: reads images 1 and 2, writes
    /// images 4 and 5.
    Prepare,
    /// The generating pass of frame generation: reads image 0, and 4 to 7, and
    /// writes image 3.
    Generate,
}

/// A command.
#[derive(Debug, Clone, Copy, PartialEq, Eq, Structural)]
pub enum Step {
    /// Brings an image from one layout to another.
    ImageBarrier {
        image: usize,
        from: Layout,
        to: Layout,
        src_access: Access,
        dst_access: Access,
        src_stage: Stage,
        dst_stage: Stage,
    },
    /// Orders memory accesses.
    MemoryBarrier { src_access: Access, dst_access: Access, src_stage: Stage, dst_stage: Stage },
    /// Copies the first bytes of a buffer to another.
    CopyBuffer { src: usize, dst: usize, size: u64 },
    /// Copies tightly packed rows from a buffer to the top left of an image.
    CopyBufferToImage { buffer: usize, image: usize, width: u32, height: u32 },
    /// Copies the top left of an image to a buffer, in tightly packed rows.
    CopyImageToBuffer { image: usize, buffer: usize, width: u32, height: u32 },
    /// Scales the whole of an image into the whole of another, bilinearly.
    Blit { src: usize, dst: usize },
    /// Runs a shader pass on a grid of workgroups.
    Dispatch { pass: usize, constants: PassConstants, x: u32, y: u32, z: u32 },
    /// Work that an SDK or the driver records.
    Sdk(SdkWork),
}

/// A layout transition that waits for nothing before it and holds back copies.
pub open spec fn simple_barrier_of(image: usize, from: Layout, to: Layout) -> Step {
    Step::ImageBarrier {
        image,
        from,
        to,
        src_access: Access::Nothing,
        dst_access: Access::Nothing,
        src_stage: Stage::Top,
        dst_stage: Stage::Transfer,
    }
}

/// A layout transition that waits for nothing before it and holds back copies.
#[must_use]
pub fn simple_barrier(image: usize, from: Layout, to: Layout) -> (r: Step)
    ensures
        r == simple_barrier_of(image, from, to),
{
    Step::ImageBarrier {
        image,
        from,
        to,
        src_access: Access::Nothing,
        dst_access: Access::Nothing,
        src_stage: Stage::Top,
        dst_stage: Stage::Transfer,
    }
}

/// A barrier that makes what copies wrote readable for shaders.
pub open spec fn copies_before_shaders_of() -> Step {
    Step::MemoryBarrier {
        src_access: Access::TransferWrite,
        dst_access: Access::ShaderRead,
        src_stage: Stage::Transfer,
        dst_stage: Stage::Compute,
    }
}

/// A barrier that makes what copies wrote readable for shaders.
#[must_use]
pub fn copies_before_shaders() -> (r: Step)
    ensures
        r == copies_before_shaders_of(),
{
    Step::MemoryBarrier {
        src_access: Access::TransferWrite,
        dst_access: Access::ShaderRead,
        src_stage: Stage::Transfer,
        dst_stage: Stage::Compute,
    }
}

/// A barrier that makes what shaders wrote readable for shaders.
pub open spec fn shaders_before_shaders_of() -> Step {
    Step::MemoryBarrier {
        src_access: Access::ShaderWrite,
        dst_access: Access::ShaderRead,
        src_stage: Stage::Compute,
        dst_stage: Stage::Compute,
    }
}

/// A barrier that makes what shaders wrote readable for shaders.
#[must_use]
pub fn shaders_before_shaders() -> (r: Step)
    ensures
        r == shaders_before_shaders_of(),
{
    Step::MemoryBarrier {
        src_access: Access::ShaderWrite,
        dst_access: Access::ShaderRead,
        src_stage: Stage::Compute,
        dst_stage: Stage::Compute,
    }
}

/// A barrier that makes what shaders wrote readable for copies.
pub open spec fn shaders_before_copies_of() -> Step {
    Step::MemoryBarrier {
        src_access: Access::ShaderWrite,
        dst_access: Access::TransferRead,
        src_stage: Stage::Compute,
        dst_stage: Stage::Transfer,
    }
}

/// A barrier that makes what shaders wrote readable for copies.
#[must_use]
pub fn shaders_before_copies() -> (r: Step)
    ensures
        r == shaders_before_copies_of(),
{
    Step::MemoryBarrier {
        src_access: Access::ShaderWrite,
        dst_access: Access::TransferRead,
        src_stage: Stage::Compute,
        dst_stage: Stage::Transfer,
    }
}

/// A barrier before an image is copied to.
pub open spec fn before_upload_of(image: usize) -> Step {
    Step::ImageBarrier {
        image,
        from: Layout::Undefined,
        to: Layout::TransferDst,
        src_access: Access::Nothing,
        dst_access: Access::TransferWrite,
        src_stage: Stage::Top,
        dst_stage: Stage::Transfer,
    }
}

/// A barrier before an image is copied to.
#[must_use]
pub fn before_upload(image: usize) -> (r: Step)
    ensures
        r == before_upload_of(image),
{
    Step::ImageBarrier {
        image,
        from: Layout::Undefined,
        to: Layout::TransferDst,
        src_access: Access::Nothing,
        dst_access: Access::TransferWrite,
        src_stage: Stage::Top,
        dst_stage: Stage::Transfer,
    }
}

/// A barrier after a shader or an SDK wrote an image that is copied from.
pub open spec fn before_download_of(image: usize) -> Step {
    Step::ImageBarrier {
        image,
        from: Layout::General,
        to: Layout::TransferSrc,
        src_access: Access::ShaderWrite,
        dst_access: Access::TransferRead,
        src_stage: Stage::Compute,
        dst_stage: Stage::Transfer,
    }
}

/// A barrier after a shader or an SDK wrote an image that is copied from.
#[must_use]
pub fn before_download(image: usize) -> (r: Step)
    ensures
        r == before_download_of(image),
{
    Step::ImageBarrier {
        image,
        from: Layout::General,
        to: Layout::TransferSrc,
        src_access: Access::ShaderWrite,
        dst_access: Access::TransferRead,
        src_stage: Stage::Compute,
        dst_stage: Stage::Transfer,
    }
}

/// The layouts of the images after a command.
pub open spec fn layouts_after_step(layouts: Seq<Layout>, step: Step) -> Seq<Layout> {
    match step {
        Step::ImageBarrier { image, to, .. } => layouts.update(image as int, to),
        _ => layouts,
    }
}

/// The layouts of the images after the first `n` commands.
pub open spec fn layouts_after(start: Seq<Layout>, steps: Seq<Step>, n: int) -> Seq<Layout>
    decreases n,
{
    if n <= 0 {
        start
    } else {
        layouts_after_step(layouts_after(start, steps, n - 1), steps[n - 1])
    }
}

/// Whether a buffer holds a tightly packed picture of an image's format.
pub open spec fn holds_picture(buffer: BufferRequest, image: ImageRequest, width: u32, height: u32) -> bool {
    width <= image.width && height <= image.height && width * height * image.format.pixel_bytes()
        <= buffer.size
}

/// Whether a command is sound on a plan, with the images in these layouts: it
/// names resources of the plan, stays inside of them, finds the images in the
/// layouts that it expects, and uses the resources for what they are made for.
pub open spec fn sound_step(plan: PlanView, layouts: Seq<Layout>, step: Step) -> bool {
    match step {
        Step::ImageBarrier { image, from, .. } => {
            &&& image < plan.images.len()
            &&& from == Layout::Undefined || from == layouts[image as int]
        },
        Step::MemoryBarrier { .. } => true,
        Step::CopyBuffer { src, dst, size } => {
            &&& src < plan.buffers.len()
            &&& dst < plan.buffers.len()
            &&& src != dst
            &&& plan.buffers[src as int].transfer_src
            &&& plan.buffers[dst as int].transfer_dst
            &&& size <= plan.buffers[src as int].size
            &&& size <= plan.buffers[dst as int].size
        },
        Step::CopyBufferToImage { buffer, image, width, height } => {
            &&& buffer < plan.buffers.len()
            &&& image < plan.images.len()
            &&& plan.buffers[buffer as int].transfer_src
            &&& layouts[image as int] == Layout::TransferDst
            &&& holds_picture(
                plan.buffers[buffer as int],
                plan.images[image as int],
                width,
                height,
            )
        },
        Step::CopyImageToBuffer { image, buffer, width, height } => {
            &&& buffer < plan.buffers.len()
            &&& image < plan.images.len()
            &&& plan.buffers[buffer as int].transfer_dst
            &&& layouts[image as int] == Layout::TransferSrc
            &&& holds_picture(
                plan.buffers[buffer as int],
                plan.images[image as int],
                width,
                height,
            )
        },
        Step::Blit { src, dst } => {
            &&& src < plan.images.len()
            &&& dst < plan.images.len()
            &&& src != dst
            &&& layouts[src as int] == Layout::TransferSrc
            &&& layouts[dst as int] == Layout::TransferDst
        },
        Step::Dispatch { pass, .. } => forall|i: int|
            0 <= i < plan.bindings.len() && (#[trigger] plan.bindings[i]).pass == pass ==> {
                &&& plan.bindings[i].buffer < plan.buffers.len()
                &&& plan.buffers[plan.bindings[i].buffer as int].storage
            },
        Step::Sdk(work) => match work {
            SdkWork::OpticalFlow => {
                &&& plan.images.len() == 3
                &&& forall|i: int| 0 <= i < 3 ==> #[trigger] layouts[i] == Layout::General
            },
            SdkWork::Upscale => {
                &&& plan.images.len() == 4
                &&& forall|i: int| 0 <= i < 3 ==> #[trigger] layouts[i] == Layout::ShaderRead
                &&& layouts[3] == Layout::General
            },
            SdkWork::Prepare | SdkWork::Generate => {
                &&& plan.images.len() == 8
                &&& forall|i: int| 0 <= i < 8 ==> #[trigger] layouts[i] == Layout::General
            },
        },
    }
}

/// Whether a program is sound on a plan, with the images in these layouts at the
/// start: every command is, when its turn comes.
#[verifier::opaque]
pub open spec fn sound(plan: PlanView, start: Seq<Layout>, steps: Seq<Step>) -> bool {
    forall|n: int|
        0 <= n < steps.len() ==> sound_step(
            plan,
            layouts_after(start, steps, n),
            #[trigger] steps[n],
        )
}

/// All images of a plan in the same layout.
pub open spec fn all_in(plan: PlanView, layout: Layout) -> Seq<Layout> {
    Seq::new(plan.images.len(), |i: int| layout)
}

/// Number of groups of `size` that `n` items take.
pub open spec fn groups_of(n: int, size: int) -> int {
    (n + size - 1) / size
}

/// Number of groups of `size` that `n` items take.
#[must_use]
pub fn groups(n: u32, size: u32) -> (r: u32)
    requires
        size > 0,
    ensures
        r == groups_of(n as int, size as int),
        r <= n,
{
    proof {
        law_groups_cover_all(n as int, size as int);
        assert((n / size) * size + n % size == n) by (nonlinear_arith)
            requires
                size > 0,
        ;
        let q = (n / size) as int;
        let m = (n % size) as int;
        let g = groups_of(n as int, size as int);
        assert(m == 0 ==> g == q) by (nonlinear_arith)
            requires
                q * size + m == n,
                0 <= m < size,
                g * size >= n,
                g == 0 || (g - 1) * size < n,
                0 <= g,
                0 <= q,
        ;
        assert(m != 0 ==> g == q + 1) by (nonlinear_arith)
            requires
                q * size + m == n,
                0 <= m < size,
                g * size >= n,
                g == 0 || (g - 1) * size < n,
                0 <= g,
                0 <= q,
        ;
        assert(m != 0 ==> q + 1 <= n) by (nonlinear_arith)
            requires
                q * size + m == n,
                0 <= m < size,
                0 <= q,
        ;
        assert(q <= n) by (nonlinear_arith)
            requires
                q * size + m == n,
                0 <= m < size,
                0 <= q,
        ;
    }
    if n % size == 0 {
        n / size
    } else {
        n / size + 1
    }
}

/// The groups take in every item, and no group is without one.
pub proof fn law_groups_cover_all(n: int, size: int)
    requires
        n >= 0,
        size > 0,
    ensures
        groups_of(n, size) >= 0,
        groups_of(n, size) * size >= n,
        groups_of(n, size) == 0 || (groups_of(n, size) - 1) * size < n,
{
    let g = groups_of(n, size);
    assert(g * size <= n + size - 1 < (g + 1) * size && g >= 0) by (nonlinear_arith)
        requires
            g == (n + size - 1) / size,
            n >= 0,
            size > 0,
    ;
    assert((g + 1) * size == g * size + size && (g - 1) * size == g * size - size)
        by (nonlinear_arith);
}

/// Two programs in a row are one program: sound where both are.
pub proof fn law_programs_compose(
    plan: PlanView,
    start: Seq<Layout>,
    first: Seq<Step>,
    second: Seq<Step>,
)
    requires
        sound(plan, start, first),
        sound(plan, layouts_after(start, first, first.len() as int), second),
    ensures
        sound(plan, start, first + second),
        layouts_after(start, first + second, (first + second).len() as int) == layouts_after(
            layouts_after(start, first, first.len() as int),
            second,
            second.len() as int,
        ),
{
    reveal(sound);
    let both = first + second;
    let mid = layouts_after(start, first, first.len() as int);
    assert forall|n: int| 0 <= n < both.len() implies sound_step(
        plan,
        layouts_after(start, both, n),
        #[trigger] both[n],
    ) by {
        if n < first.len() {
            lemma_layouts_of_prefix(start, first, second, n);
            assert(both[n] == first[n]);
        } else {
            lemma_layouts_of_suffix(start, first, second, n - first.len());
            assert(both[n] == second[n - first.len()]);
        }
    }
    lemma_layouts_of_suffix(start, first, second, second.len() as int);
}

proof fn lemma_layouts_of_prefix(
    start: Seq<Layout>,
    first: Seq<Step>,
    second: Seq<Step>,
    n: int,
)
    requires
        0 <= n <= first.len(),
    ensures
        layouts_after(start, first + second, n) == layouts_after(start, first, n),
    decreases n,
{
    if n > 0 {
        lemma_layouts_of_prefix(start, first, second, n - 1);
        assert((first + second)[n - 1] == first[n - 1]);
    }
}

proof fn lemma_layouts_of_suffix(
    start: Seq<Layout>,
    first: Seq<Step>,
    second: Seq<Step>,
    n: int,
)
    requires
        0 <= n <= second.len(),
    ensures
        layouts_after(start, first + second, first.len() + n) == layouts_after(
            layouts_after(start, first, first.len() as int),
            second,
            n,
        ),
    decreases n,
{
    if n == 0 {
        lemma_layouts_of_prefix(start, first, second, first.len() as int);
    } else {
        lemma_layouts_of_suffix(start, first, second, n - 1);
        assert((first + second)[first.len() + n - 1] == second[n - 1]);
    }
}

/// The constants reach the shaders as words, least significant byte first: width,
/// height, factor, block size and search radius, and for the conversion pass the
/// number of vectors.
pub proof fn law_constants_are_words(c: PushConstants, f: FlowConvertPc)
    ensures
        ({
            let b = PassConstants::Warp(c).spec_bytes();
            &&& b.len() == 20
            &&& layout::word(b, 0) == c.width
            &&& layout::word(b, 4) == c.height
            &&& layout::word(b, 8) == c.t
            &&& layout::word(b, 12) == c.block_size
            &&& layout::word(b, 16) == c.search_radius
        }),
        PassConstants::FlowConvert(f).spec_bytes().len() == 4,
        layout::word(PassConstants::FlowConvert(f).spec_bytes(), 0) == f.count,
{
    let b = c.spec_bytes();
    assert(b.subrange(0, 4) =~= wire::le32(c.width));
    wire::lemma_u32_at(b, 0, c.width);
    assert(b.subrange(4, 8) =~= wire::le32(c.height));
    wire::lemma_u32_at(b, 4, c.height);
    assert(b.subrange(8, 12) =~= wire::le32(c.t));
    wire::lemma_u32_at(b, 8, c.t);
    assert(b.subrange(12, 16) =~= wire::le32(c.block_size));
    wire::lemma_u32_at(b, 12, c.block_size);
    assert(b.subrange(16, 20) =~= wire::le32(c.search_radius));
    wire::lemma_u32_at(b, 16, c.search_radius);
    layout::law_numbers_are_little_endian(b, 0, 0, 0, 0, 0);
    layout::law_numbers_are_little_endian(b, 4, 0, 0, 0, 0);
    layout::law_numbers_are_little_endian(b, 8, 0, 0, 0, 0);
    layout::law_numbers_are_little_endian(b, 12, 0, 0, 0, 0);
    layout::law_numbers_are_little_endian(b, 16, 0, 0, 0, 0);
    layout::law_numbers_are_little_endian(b, 0, 0, f.count, 0, 0);
}

} // verus!
