//! Memory types, and the steps of allocating a buffer or an image.

use vstd::prelude::*;

verus! {

/// `ash::vk::MemoryPropertyFlags::DEVICE_LOCAL` is the flag of bit 0, and
/// `as_raw` hands out the bits of a flag set.
#[verifier::external_body]
fn device_local() -> (r: u32)
    ensures
        r == 1,
{
    ash::vk::MemoryPropertyFlags::DEVICE_LOCAL.as_raw()
}

/// `ash::vk::MemoryPropertyFlags::HOST_VISIBLE` is the flag of bit 1, and
/// `as_raw` hands out the bits of a flag set.
#[verifier::external_body]
fn host_visible() -> (r: u32)
    ensures
        r == 2,
{
    ash::vk::MemoryPropertyFlags::HOST_VISIBLE.as_raw()
}

/// `ash::vk::MemoryPropertyFlags::HOST_COHERENT` is the flag of bit 2, and
/// `as_raw` hands out the bits of a flag set.
#[verifier::external_body]
fn host_coherent() -> (r: u32)
    ensures
        r == 4,
{
    ash::vk::MemoryPropertyFlags::HOST_COHERENT.as_raw()
}

/// `ash::vk::MemoryPropertyFlags::HOST_CACHED` is the flag of bit 3, and
/// `as_raw` hands out the bits of a flag set.
#[verifier::external_body]
fn host_cached() -> (r: u32)
    ensures
        r == 8,
{
    ash::vk::MemoryPropertyFlags::HOST_CACHED.as_raw()
}

/// Where a buffer or an image should live.
#[derive(Debug, Clone, Copy, PartialEq, Eq, Structural)]
pub enum MemoryKind {
    /// In the memory of the device.
    Device,
    /// In memory that the CPU can write.
    Host,
    /// In memory that the CPU can write, and read quickly.
    HostCached,
    /// In the memory of the device or, failing that, in memory that the CPU can
    /// write.
    DeviceOrHost,
    /// In memory that the CPU can read quickly or, failing that, write.
    HostCachedOrHost,
}

/// Properties that memory for the CPU has: visible and coherent.
pub const HOST_BITS: u32 = 6;

/// Properties that cached memory for the CPU has.
pub const HOST_CACHED_BITS: u32 = 14;

/// Properties that the memory of the device has.
pub const DEVICE_BITS: u32 = 1;

impl MemoryKind {
    /// The properties to ask for, and those to ask for where that fails.
    pub open spec fn spec_properties(self) -> (u32, Option<u32>) {
        match self {
            MemoryKind::Device => (DEVICE_BITS, None),
            MemoryKind::Host => (HOST_BITS, None),
            MemoryKind::HostCached => (HOST_CACHED_BITS, None),
            MemoryKind::DeviceOrHost => (DEVICE_BITS, Some(HOST_BITS)),
            MemoryKind::HostCachedOrHost => (HOST_CACHED_BITS, Some(HOST_BITS)),
        }
    }

    /// The bits of the memory properties to ask for, and of those to ask for
    /// where that fails.
    #[must_use]
    pub fn properties(self) -> (r: (u32, Option<u32>))
        ensures
            r == self.spec_properties(),
    {
        let host: u32 = host_visible() | host_coherent();
        let cached: u32 = host | host_cached();
        assert(2u32 | 4u32 == 6u32) by (bit_vector);
        assert(6u32 | 8u32 == 14u32) by (bit_vector);
        match self {
            MemoryKind::Device => (device_local(), None),
            MemoryKind::Host => (host, None),
            MemoryKind::HostCached => (cached, None),
            MemoryKind::DeviceOrHost => (device_local(), Some(host)),
            MemoryKind::HostCachedOrHost => (cached, Some(host)),
        }
    }
}

/// Whether memory type `i` may be used, by the type bits of a resource, and has
/// all required properties.
pub open spec fn suits(types: Seq<u32>, type_bits: u32, required: u32, i: int) -> bool {
    type_bits & (1u32 << (i as u32)) != 0 && types[i] & required == required
}

/// Whether a memory type is the first that suits, or none is.
pub open spec fn is_first_suiting(
    types: Seq<u32>,
    type_bits: u32,
    required: u32,
    r: Option<u32>,
) -> bool {
    match r {
        Some(i) => i < types.len() && suits(types, type_bits, required, i as int) && forall|j: int|
            0 <= j < i ==> !#[trigger] suits(types, type_bits, required, j),
        None => forall|j: int|
            0 <= j < types.len() ==> !#[trigger] suits(types, type_bits, required, j),
    }
}

/// Index of the first memory type that suits. `types` holds the properties of
/// the memory types of the device, of which there are at most 32.
#[must_use]
pub fn find_memory_type(types: &Vec<u32>, type_bits: u32, required: u32) -> (r: Option<u32>)
    requires
        types@.len() <= 32,
    ensures
        is_first_suiting(types@, type_bits, required, r),
{
    let mut i: u32 = 0;
    while (i as usize) < types.len()
        invariant
            i <= types@.len() <= 32,
            forall|j: int| 0 <= j < i ==> !#[trigger] suits(types@, type_bits, required, j),
        decreases types@.len() - i,
    {
        if type_bits & (1u32 << i) != 0 && types[i as usize] & required == required {
            assert(suits(types@, type_bits, required, i as int));
            return Some(i);
        }
        i = i + 1;
    }
    None
}

/// What is being allocated.
#[derive(Debug, Clone, Copy, PartialEq, Eq, Structural)]
pub enum ObjectKind {
    /// A buffer.
    Buffer,
    /// An image to copy from and to.
    Image,
    /// An image with a view, for the FSR upscaler.
    FsrImage,
    /// An image with a view, for the optical flow engine.
    FlowImage,
    /// An image with a view, for frame generation.
    ComputeImage,
}

/// What an image is used for.
#[derive(Debug, Clone, Copy, PartialEq, Eq, Structural)]
pub struct ImageUsage {
    /// Copies read it.
    pub transfer_src: bool,
    /// Copies write it.
    pub transfer_dst: bool,
    /// Shaders read and write its pixels.
    pub storage: bool,
    /// Shaders sample it.
    pub sampled: bool,
}

/// What an image of a kind is used for: each to copy from and to, and those with a
/// view in shaders. Only the optical flow engine does not sample its images.
pub open spec fn image_usage_of(kind: ObjectKind) -> ImageUsage {
    ImageUsage {
        transfer_src: true,
        transfer_dst: true,
        storage: view_needed(kind),
        sampled: kind == ObjectKind::FsrImage || kind == ObjectKind::ComputeImage,
    }
}

/// Whether an image of a kind has a view.
pub open spec fn view_needed(kind: ObjectKind) -> bool {
    kind == ObjectKind::FsrImage || kind == ObjectKind::FlowImage || kind
        == ObjectKind::ComputeImage
}

/// What an image of a kind is used for.
#[must_use]
pub fn image_usage(kind: ObjectKind) -> (r: ImageUsage)
    ensures
        r == image_usage_of(kind),
{
    ImageUsage {
        transfer_src: true,
        transfer_dst: true,
        storage: needs_view(kind),
        sampled: match kind {
            ObjectKind::FsrImage | ObjectKind::ComputeImage => true,
            _ => false,
        },
    }
}

/// Whether an image of a kind has a view.
#[must_use]
pub fn needs_view(kind: ObjectKind) -> (r: bool)
    ensures
        r == view_needed(kind),
{
    match kind {
        ObjectKind::FsrImage | ObjectKind::FlowImage | ObjectKind::ComputeImage => true,
        _ => false,
    }
}

/// A step of an allocation.
#[derive(Debug, Clone, Copy, PartialEq, Eq, Structural)]
pub enum AllocationStep {
    /// Creating the object.
    Create,
    /// Finding a memory type.
    FindMemory,
    /// Allocating the memory.
    Allocate,
    /// Binding the memory to the object.
    Bind,
    /// Creating a view of the image.
    View,
}

/// What a failed allocation reports and releases.
#[derive(Debug)]
pub struct AllocationFailure {
    /// What failed.
    pub message: String,
    /// Whether the memory is freed first.
    pub free_memory: bool,
    /// Whether the object is destroyed then.
    pub destroy_object: bool,
}

/// Text of what failed, without the driver's reason.
pub open spec fn failure_text(kind: ObjectKind, step: AllocationStep) -> Seq<char> {
    match (kind, step) {
        (ObjectKind::Buffer, AllocationStep::Create) => "create buffer: "@,
        (ObjectKind::Buffer, AllocationStep::FindMemory) => "no suitable memory type"@,
        (ObjectKind::Buffer, AllocationStep::Allocate) => "allocate memory: "@,
        (ObjectKind::Buffer, AllocationStep::Bind) => "bind memory: "@,
        (ObjectKind::Buffer, AllocationStep::View) => ""@,
        (ObjectKind::Image, AllocationStep::Create) => "create image: "@,
        (ObjectKind::Image, AllocationStep::FindMemory) => "no device-local memory for image"@,
        (ObjectKind::Image, AllocationStep::Allocate) => "alloc image mem: "@,
        (ObjectKind::Image, AllocationStep::Bind) => "bind image mem: "@,
        (ObjectKind::Image, AllocationStep::View) => ""@,
        (ObjectKind::FsrImage, AllocationStep::Create) => "create fsr image: "@,
        (ObjectKind::FsrImage, AllocationStep::FindMemory) =>
            "no device-local memory for FSR image"@,
        (ObjectKind::FsrImage, AllocationStep::Allocate) => "alloc FSR image mem: "@,
        (ObjectKind::FsrImage, AllocationStep::Bind) => "bind FSR image mem: "@,
        (ObjectKind::FsrImage, AllocationStep::View) => "create FSR image view: "@,
        (ObjectKind::FlowImage, AllocationStep::Create) => "create image: "@,
        (ObjectKind::FlowImage, AllocationStep::FindMemory) => "no suitable image memory type"@,
        (ObjectKind::FlowImage, AllocationStep::Allocate) => "allocate image memory: "@,
        (ObjectKind::FlowImage, AllocationStep::Bind) => "bind image memory: "@,
        (ObjectKind::FlowImage, AllocationStep::View) => "create image view: "@,
        (ObjectKind::ComputeImage, AllocationStep::FindMemory) => "no DEVICE_LOCAL memory type"@,
        (ObjectKind::ComputeImage, _) => ""@,
    }
}

/// Text of what failed: the driver has a reason for everything but a missing
/// memory type.
pub open spec fn failure_message(kind: ObjectKind, step: AllocationStep, reason: Seq<char>) -> Seq<
    char,
> {
    if step == AllocationStep::FindMemory {
        failure_text(kind, step)
    } else {
        failure_text(kind, step) + reason
    }
}

/// Whether the object exists when a step is taken.
pub open spec fn object_exists(step: AllocationStep) -> bool {
    step != AllocationStep::Create
}

/// Whether the memory exists when a step is taken.
pub open spec fn memory_exists(step: AllocationStep) -> bool {
    step == AllocationStep::Bind || step == AllocationStep::View
}

/// What to report and release when a step of an allocation failed for `reason`.
///
/// Whatever was made so far is released, except for the images of frame
/// generation, which live as long as the device.
#[must_use]
pub fn allocation_failure(kind: ObjectKind, step: AllocationStep, reason: &str) -> (r:
    AllocationFailure)
    ensures
        r.message@ == failure_message(kind, step, reason@),
        r.destroy_object == (object_exists(step) && kind != ObjectKind::ComputeImage),
        r.free_memory == (memory_exists(step) && kind != ObjectKind::ComputeImage),
{
    let prefix: &str = match (kind, step) {
        (ObjectKind::Buffer, AllocationStep::Create) => "create buffer: ",
        (ObjectKind::Buffer, AllocationStep::FindMemory) => "no suitable memory type",
        (ObjectKind::Buffer, AllocationStep::Allocate) => "allocate memory: ",
        (ObjectKind::Buffer, AllocationStep::Bind) => "bind memory: ",
        (ObjectKind::Buffer, AllocationStep::View) => "",
        (ObjectKind::Image, AllocationStep::Create) => "create image: ",
        (ObjectKind::Image, AllocationStep::FindMemory) => "no device-local memory for image",
        (ObjectKind::Image, AllocationStep::Allocate) => "alloc image mem: ",
        (ObjectKind::Image, AllocationStep::Bind) => "bind image mem: ",
        (ObjectKind::Image, AllocationStep::View) => "",
        (ObjectKind::FsrImage, AllocationStep::Create) => "create fsr image: ",
        (ObjectKind::FsrImage, AllocationStep::FindMemory) =>
            "no device-local memory for FSR image",
        (ObjectKind::FsrImage, AllocationStep::Allocate) => "alloc FSR image mem: ",
        (ObjectKind::FsrImage, AllocationStep::Bind) => "bind FSR image mem: ",
        (ObjectKind::FsrImage, AllocationStep::View) => "create FSR image view: ",
        (ObjectKind::FlowImage, AllocationStep::Create) => "create image: ",
        (ObjectKind::FlowImage, AllocationStep::FindMemory) => "no suitable image memory type",
        (ObjectKind::FlowImage, AllocationStep::Allocate) => "allocate image memory: ",
        (ObjectKind::FlowImage, AllocationStep::Bind) => "bind image memory: ",
        (ObjectKind::FlowImage, AllocationStep::View) => "create image view: ",
        (ObjectKind::ComputeImage, AllocationStep::FindMemory) => "no DEVICE_LOCAL memory type",
        (ObjectKind::ComputeImage, _) => "",
    };
    let mut message = String::from_str(prefix);
    if step != AllocationStep::FindMemory {
        message.append(reason);
    }
    AllocationFailure {
        message,
        free_memory: (step == AllocationStep::Bind || step == AllocationStep::View) && kind
            != ObjectKind::ComputeImage,
        destroy_object: step != AllocationStep::Create && kind != ObjectKind::ComputeImage,
    }
}

/// Memory for the CPU is visible to it and needs no flushing, and what the CPU reads
/// quickly is cached as well; memory of the device is in the device. Only the two kinds
/// that name a second choice have one, and that is memory for the CPU.
pub proof fn law_memory_is_what_it_is_for(kind: MemoryKind, types: Seq<u32>, bits: u32, i: int)
    ensures
        ({
            let (first, second) = kind.spec_properties();
            let t = types[i];
            let host = kind != MemoryKind::Device && kind != MemoryKind::DeviceOrHost;
            let cached = kind == MemoryKind::HostCached || kind == MemoryKind::HostCachedOrHost;
            &&& suits(types, bits, first, i) ==> {
                &&& host ==> t & 2 != 0 && t & 4 != 0
                &&& cached ==> t & 8 != 0
                &&& !host ==> t & 1 != 0
            }
            &&& second is Some <==> kind == MemoryKind::DeviceOrHost || kind
                == MemoryKind::HostCachedOrHost
            &&& second matches Some(s) ==> (suits(types, bits, s, i) ==> t & 2 != 0 && t & 4 != 0)
        }),
{
    let t = types[i];
    assert(t & 6 == 6 ==> t & 2 != 0 && t & 4 != 0) by (bit_vector);
    assert(t & 14 == 14 ==> t & 2 != 0 && t & 4 != 0 && t & 8 != 0) by (bit_vector);
    assert(t & 1 == 1 ==> t & 1 != 0) by (bit_vector);
}

/// No more is asked of memory than what it is for: a type with exactly the properties of
/// its kind suits where the resource allows it.
pub proof fn law_no_more_is_asked_of_memory(kind: MemoryKind, types: Seq<u32>, bits: u32, i: int)
    requires
        bits & (1u32 << (i as u32)) != 0,
    ensures
        ({
            let first = kind.spec_properties().0;
            let t = types[i];
            &&& kind == MemoryKind::Device || kind == MemoryKind::DeviceOrHost ==> t & 1 != 0
                ==> suits(types, bits, first, i)
            &&& kind == MemoryKind::Host ==> t & 2 != 0 && t & 4 != 0 ==> suits(
                types,
                bits,
                first,
                i,
            )
            &&& kind == MemoryKind::HostCached || kind == MemoryKind::HostCachedOrHost ==> t & 2
                != 0 && t & 4 != 0 && t & 8 != 0 ==> suits(types, bits, first, i)
        }),
{
    let t = types[i];
    assert(t & 2 != 0 && t & 4 != 0 ==> t & 6 == 6) by (bit_vector);
    assert(t & 2 != 0 && t & 4 != 0 && t & 8 != 0 ==> t & 14 == 14) by (bit_vector);
    assert(t & 1 != 0 ==> t & 1 == 1) by (bit_vector);
}

/// What exists grows with the steps: nothing when the object is created, the object from
/// then on, and the memory once it was allocated.
pub proof fn law_what_exists_grows(step: AllocationStep)
    ensures
        object_exists(step) <==> !(step is Create),
        memory_exists(step) <==> !(step is Create || step is FindMemory || step is Allocate),
        memory_exists(step) ==> object_exists(step),
{
}

/// Every image can be copied from and to. Those that shaders or an SDK work on have a
/// view and can be written by shaders, and only those.
pub proof fn law_images_can_be_used_for_their_kind(kind: ObjectKind)
    ensures
        ({
            let u = image_usage_of(kind);
            let shaders = kind is FsrImage || kind is FlowImage || kind is ComputeImage;
            &&& u.transfer_src && u.transfer_dst
            &&& u.storage <==> shaders
            &&& view_needed(kind) <==> shaders
            &&& u.sampled <==> shaders && !(kind is FlowImage)
        }),
{
}

/// The memory type that is found is one that the resource may use, with every property
/// that is required, and no type of lower index is; none is found only where there is
/// none.
pub proof fn law_first_suiting_type_is_found(
    types: Seq<u32>,
    type_bits: u32,
    required: u32,
    r: Option<u32>,
    i: u32,
)
    requires
        is_first_suiting(types, type_bits, required, r),
        types.len() <= 32,
        i < types.len(),
        type_bits & (1u32 << i) != 0,
        types[i as int] & required == required,
    ensures
        r matches Some(k) && k <= i && type_bits & (1u32 << k) != 0 && types[k as int] & required
            == required,
{
    assert(suits(types, type_bits, required, i as int));
}

/// Whether the CPU can reach memory of a kind, whichever of its choices is taken.
pub open spec fn for_cpu(kind: MemoryKind) -> bool {
    kind == MemoryKind::Host || kind == MemoryKind::HostCached || kind
        == MemoryKind::HostCachedOrHost
}

/// Memory for the CPU is visible to it and coherent, whichever choice suits.
pub proof fn law_cpu_can_reach_its_memory(kind: MemoryKind, types: Seq<u32>, bits: u32, i: int)
    requires
        for_cpu(kind),
        suits(types, bits, kind.spec_properties().0, i) || (kind.spec_properties().1 matches Some(
            second,
        ) && suits(types, bits, second, i)),
    ensures
        types[i] & 2 != 0,
        types[i] & 4 != 0,
{
    law_memory_is_what_it_is_for(kind, types, bits, i);
}

} // verus!
