//! Setup of the Vulkan instance, device and queues, without the calls.
//!
//! Each step of the setup is a function from what the driver reported to what
//! is asked of it next. What has to be released when a step fails is part of
//! the answer.

use vstd::prelude::*;

use crate::text;
use crate::vulkan::error::VulkanError;
use crate::vulkan::queues;
use crate::vulkan::queues::{QueueCapabilities, QueueRequest};
use crate::vulkan::video::VideoCodec;

verus! {

/// Vendor id of NVIDIA devices.
pub const VENDOR_NVIDIA: u32 = 0x10DE;

/// Vendor id of AMD devices.
pub const VENDOR_AMD: u32 = 0x1002;

/// Whether the value of the environment variable switches the validation layer on.
pub open spec fn wants_validation(value: Option<Seq<char>>) -> bool {
    value matches Some(v) && v == "1"@
}

/// The first step: whether the validation layer is switched on, which it is
/// where the environment variable `REMOTEWAY_VK_VALIDATION` holds `1`.
///
/// # Errors
///
/// A request without a queue is refused.
pub fn plan_instance(request: &QueueRequest, validation_var: &Option<String>) -> (r: Result<
    bool,
    VulkanError,
>)
    ensures
        match r {
            Ok(validation) => request.queues@.len() > 0 && validation == wants_validation(
                match *validation_var {
                    Some(v) => Some(v@),
                    None => None,
                },
            ),
            Err(e) => request.queues@.len() == 0 && (e matches VulkanError::NoSuitableQueue(m)
                && m@ == "QueueRequest must include at least one queue"@),
        },
{
    if request.queues.len() == 0 {
        return Err(
            VulkanError::NoSuitableQueue(
                String::from_str("QueueRequest must include at least one queue"),
            ),
        );
    }
    Ok(
        match validation_var {
            Some(v) => text::same(v.as_str(), "1"),
            None => false,
        },
    )
}

/// Whether a device is the one to take.
pub open spec fn is_choice(discrete: Seq<bool>, r: Result<usize, VulkanError>) -> bool {
    match r {
        Ok(i) => {
            &&& i < discrete.len()
            &&& forall|j: int| 0 <= j < i ==> !#[trigger] discrete[j]
            &&& !discrete[i as int] ==> i == 0 && forall|j: int|
                0 <= j < discrete.len() ==> !#[trigger] discrete[j]
        },
        Err(e) => discrete.len() == 0 && e == VulkanError::NoDevice,
    }
}

/// Index of the physical device to take: the first discrete GPU, or else the
/// first device. `discrete` says of each device whether it is a discrete GPU.
///
/// # Errors
///
/// There is no device.
pub fn choose_device(discrete: &Vec<bool>) -> (r: Result<usize, VulkanError>)
    ensures
        is_choice(discrete@, r),
{
    if discrete.len() == 0 {
        return Err(VulkanError::NoDevice);
    }
    let mut i: usize = 0;
    while i < discrete.len()
        invariant
            i <= discrete.len(),
            forall|j: int| 0 <= j < i ==> !#[trigger] discrete@[j],
        decreases discrete.len() - i,
    {
        if discrete[i] {
            return Ok(i);
        }
        i = i + 1;
    }
    Ok(0)
}

/// Whether a request asks for a queue that encodes video.
pub open spec fn wants_encode(request: QueueRequest) -> bool {
    exists|i: int|
        0 <= i < request.queues@.len() && queues::covers(
            (#[trigger] request.queues@[i]).spec_bits(),
            4,
        )
}

/// The encode extensions of codecs.
pub open spec fn codec_extensions(codecs: Seq<VideoCodec>) -> Seq<Seq<char>> {
    codecs.map_values(|c: VideoCodec| c.spec_encode_extension())
}

/// The device extensions that are needed: those of the caller and, to encode
/// video, those of the video queue and of the codecs.
pub open spec fn needed_extensions(request: QueueRequest, extensions: Seq<Seq<char>>) -> Seq<
    Seq<char>,
> {
    if wants_encode(request) {
        extensions + seq!["VK_KHR_video_queue"@, "VK_KHR_video_encode_queue"@]
            + codec_extensions(request.video_codecs@)
    } else {
        extensions
    }
}

/// Index of the first entry of a request that asks for the capability `bit`, or
/// the number of entries.
pub open spec fn first_with(queues: Seq<QueueCapabilities>, bit: u32) -> int
    decreases queues.len(),
{
    if queues.len() == 0 {
        0
    } else if queues::covers(queues[0].spec_bits(), bit) {
        0
    } else {
        1 + first_with(queues.drop_first(), bit)
    }
}

/// The family that serves the first entry that asks for the capability `bit`.
pub open spec fn family_for(queues: Seq<QueueCapabilities>, selected: Seq<u32>, bit: u32) -> Option<
    u32,
> {
    let i = first_with(queues, bit);
    if i < queues.len() {
        Some(selected[i])
    } else {
        None
    }
}

/// What is asked of the device.
#[derive(Debug)]
pub struct DevicePlan {
    /// Queue family of each entry of the request.
    pub selected: Vec<u32>,
    /// The different families, in ascending order: one queue each.
    pub unique_families: Vec<u32>,
    /// The device extensions to enable.
    pub extensions: Vec<String>,
    /// Whether the AV1 encode feature has to be enabled.
    pub av1: bool,
    /// Queue family of the compute queue, if one was requested.
    pub compute_family: Option<u32>,
    /// Queue family of the video encode queue, if one was requested.
    pub encode_family: Option<u32>,
}

/// Whether a plan is the one for a request, on a device with these families and extensions.
pub open spec fn fits_request(
    request: QueueRequest,
    extensions: Seq<Seq<char>>,
    families: Seq<u32>,
    available: Seq<Seq<char>>,
    plan: DevicePlan,
) -> bool {
    &&& queues::is_best(queues::all_bits(request.queues@), families, plan.selected@)
    &&& forall|i: int, j: int|
        0 <= i < j < plan.unique_families@.len() ==> plan.unique_families@[i]
            < plan.unique_families@[j]
    &&& plan.unique_families@.to_set() == plan.selected@.to_set()
    &&& text::texts(plan.extensions@) == needed_extensions(request, extensions).filter(
        |e: Seq<char>| available.contains(e),
    )
    &&& plan.av1 == request.video_codecs@.contains(VideoCodec::Av1)
    &&& plan.compute_family == family_for(request.queues@, plan.selected@, 1)
    &&& plan.encode_family == family_for(request.queues@, plan.selected@, 4)
}

/// Plan the device: which queue families, extensions and features.
///
/// `families` holds the Vulkan queue flags of the families of the device,
/// `available` the names of its extensions. Of the extensions that are needed,
/// those are enabled that the device has, in their order.
///
/// # Errors
///
/// No family serves an entry of the request; the error names the first such
/// entry.
pub fn plan_device(
    request: &QueueRequest,
    extensions: &Vec<String>,
    families: &Vec<u32>,
    available: &Vec<String>,
) -> (r: Result<DevicePlan, VulkanError>)
    requires
        families@.len() <= u32::MAX,
    ensures
        match r {
            Ok(plan) => fits_request(
                *request,
                text::texts(extensions@),
                families@,
                text::texts(available@),
                plan,
            ),
            Err(e) => exists|i: int|
                0 <= i < request.queues@.len() && !queues::servable(
                    (#[trigger] request.queues@[i]).spec_bits(),
                    families@,
                ) && (forall|j: int|
                    0 <= j < i ==> queues::servable(
                        (#[trigger] request.queues@[j]).spec_bits(),
                        families@,
                    )) && (e matches VulkanError::NoSuitableQueue(m) && m@
                    == queues::capabilities_text(request.queues@[i].spec_bits())),
        },
{
    let selected = match queues::solve(&request.queues, families) {
        Ok(selected) => selected,
        Err(i) => {
            assert forall|j: int| 0 <= j < i implies queues::servable(
                (#[trigger] request.queues@[j]).spec_bits(),
                families@,
            ) by {
                assert(queues::servable(queues::all_bits(request.queues@)[j], families@));
            }
            return Err(VulkanError::NoSuitableQueue(request.queues[i].text()));
        },
    };
    let unique_families = queues::unique_families(&selected);
    let compute_family = pick(&request.queues, &selected, QueueCapabilities::compute());
    let encode_family = pick(&request.queues, &selected, QueueCapabilities::video_encode());
    proof {
        lemma_first_with(request.queues@, 4);
    }
    let mut wanted: Vec<String> = Vec::new();
    append_names(&mut wanted, extensions);
    if encode_family.is_some() {
        assert(wants_encode(*request));
        wanted.push(String::from_str("VK_KHR_video_queue"));
        wanted.push(String::from_str("VK_KHR_video_encode_queue"));
        let ghost base = text::texts(extensions@) + seq![
            "VK_KHR_video_queue"@,
            "VK_KHR_video_encode_queue"@,
        ];
        assert(text::texts(wanted@) =~= base);
        let mut i: usize = 0;
        assert(codec_extensions(request.video_codecs@).subrange(0, 0) =~= Seq::empty());
        while i < request.video_codecs.len()
            invariant
                i <= request.video_codecs.len(),
                text::texts(wanted@) == base + codec_extensions(request.video_codecs@).subrange(
                    0,
                    i as int,
                ),
            decreases request.video_codecs.len() - i,
        {
            let ghost before = text::texts(wanted@);
            wanted.push(String::from_str(request.video_codecs[i].encode_extension()));
            assert(text::texts(wanted@) =~= before.push(
                request.video_codecs@[i as int].spec_encode_extension(),
            ));
            assert(text::texts(wanted@) =~= base + codec_extensions(
                request.video_codecs@,
            ).subrange(0, i + 1));
            i = i + 1;
        }
        assert(codec_extensions(request.video_codecs@).subrange(0, i as int) =~= codec_extensions(
            request.video_codecs@,
        ));
    }
    assert(text::texts(wanted@) =~= needed_extensions(*request, text::texts(extensions@)));
    let enabled = keep_available(&wanted, available);
    let av1 = lists_codec(&request.video_codecs, VideoCodec::Av1);
    Ok(
        DevicePlan {
            selected,
            unique_families,
            extensions: enabled,
            av1,
            compute_family,
            encode_family,
        },
    )
}

proof fn lemma_first_with(queues: Seq<QueueCapabilities>, bit: u32)
    ensures
        0 <= first_with(queues, bit) <= queues.len(),
        first_with(queues, bit) < queues.len() ==> queues::covers(
            queues[first_with(queues, bit)].spec_bits(),
            bit,
        ),
        forall|j: int|
            0 <= j < first_with(queues, bit) ==> !queues::covers(
                (#[trigger] queues[j]).spec_bits(),
                bit,
            ),
    decreases queues.len(),
{
    if queues.len() > 0 && !queues::covers(queues[0].spec_bits(), bit) {
        let rest = queues.drop_first();
        lemma_first_with(rest, bit);
        assert forall|j: int| 0 <= j < first_with(queues, bit) implies !queues::covers(
            (#[trigger] queues[j]).spec_bits(),
            bit,
        ) by {
            if j > 0 {
                assert(queues[j] == rest[j - 1]);
            }
        }
    }
}

fn pick(queues: &Vec<QueueCapabilities>, selected: &Vec<u32>, capability: QueueCapabilities) -> (r:
    Option<u32>)
    requires
        selected@.len() == queues@.len(),
    ensures
        r == family_for(queues@, selected@, capability.spec_bits()),
{
    let ghost bit = capability.spec_bits();
    proof {
        lemma_first_with(queues@, bit);
    }
    let mut i: usize = 0;
    while i < queues.len()
        invariant
            i <= queues.len(),
            selected@.len() == queues@.len(),
            bit == capability.spec_bits(),
            i <= first_with(queues@, bit) <= queues@.len(),
            first_with(queues@, bit) < queues@.len() ==> queues::covers(
                queues@[first_with(queues@, bit)].spec_bits(),
                bit,
            ),
            forall|j: int|
                0 <= j < first_with(queues@, bit) ==> !queues::covers(
                    (#[trigger] queues@[j]).spec_bits(),
                    bit,
                ),
        decreases queues.len() - i,
    {
        if queues[i].contains(capability) {
            return Some(selected[i]);
        }
        i = i + 1;
    }
    None
}

fn append_names(out: &mut Vec<String>, names: &Vec<String>)
    requires
        old(out)@.len() == 0,
    ensures
        text::texts(final(out)@) == text::texts(names@),
{
    let mut i: usize = 0;
    while i < names.len()
        invariant
            i <= names.len(),
            out@.len() == i,
            forall|j: int| 0 <= j < i ==> (#[trigger] out@[j])@ == names@[j]@,
        decreases names.len() - i,
    {
        out.push(String::from_str(names[i].as_str()));
        i = i + 1;
    }
    assert(text::texts(out@) =~= text::texts(names@));
}

/// Those of `wanted` that are available, in their order.
fn keep_available(wanted: &Vec<String>, available: &Vec<String>) -> (r: Vec<String>)
    ensures
        text::texts(r@) == text::texts(wanted@).filter(
            |e: Seq<char>| text::texts(available@).contains(e),
        ),
{
    let ghost keep = |e: Seq<char>| text::texts(available@).contains(e);
    let ghost all = text::texts(wanted@);
    let mut r: Vec<String> = Vec::new();
    let mut i: usize = 0;
    proof {
        reveal(Seq::filter);
        assert(all.subrange(0, 0) =~= Seq::empty());
        assert(text::texts(r@) =~= all.subrange(0, 0).filter(keep));
    }
    while i < wanted.len()
        invariant
            i <= wanted.len(),
            all == text::texts(wanted@),
            keep == (|e: Seq<char>| text::texts(available@).contains(e)),
            text::texts(r@) == all.subrange(0, i as int).filter(keep),
        decreases wanted.len() - i,
    {
        let ghost before = text::texts(r@);
        let ghost next = all.subrange(0, i + 1);
        proof {
            reveal(Seq::filter);
            assert(next.drop_last() =~= all.subrange(0, i as int));
            assert(next.last() == wanted@[i as int]@);
        }
        if text::lists(available, wanted[i].as_str()) {
            r.push(String::from_str(wanted[i].as_str()));
            assert(text::texts(r@) =~= before.push(wanted@[i as int]@));
        }
        assert(text::texts(r@) == next.filter(keep));
        i = i + 1;
    }
    assert(all.subrange(0, i as int) =~= all);
    r
}

fn lists_codec(codecs: &Vec<VideoCodec>, codec: VideoCodec) -> (r: bool)
    ensures
        r == codecs@.contains(codec),
{
    let mut i: usize = 0;
    while i < codecs.len()
        invariant
            i <= codecs.len(),
            forall|j: int| 0 <= j < i ==> #[trigger] codecs@[j] != codec,
        decreases codecs.len() - i,
    {
        if codecs[i] == codec {
            return true;
        }
        i = i + 1;
    }
    false
}

/// A step of the setup that can fail.
#[derive(Debug, Clone, Copy, PartialEq, Eq, Structural)]
pub enum SetupStep {
    /// Opening the Vulkan loader.
    Loader,
    /// Creating the instance.
    Instance,
    /// Listing the physical devices.
    Enumerate,
    /// Creating the device.
    Device,
    /// Finding the compute queue among the queues of the device.
    ComputeQueue,
    /// Creating the command pool.
    CommandPool,
}

/// What a failed setup reports and what it releases.
#[derive(Debug)]
pub struct SetupFailure {
    /// The error to report.
    pub error: VulkanError,
    /// Whether the device is destroyed first.
    pub destroy_device: bool,
    /// Whether the instance is destroyed then.
    pub destroy_instance: bool,
}

/// Text of what failed, with the driver's `reason`.
pub open spec fn failure_message(step: SetupStep, reason: Seq<char>) -> Seq<char> {
    match step {
        SetupStep::Loader => "Vulkan loader: "@ + reason,
        SetupStep::Instance => "Vulkan init: Vulkan instance: "@ + reason,
        SetupStep::Enumerate => "Vulkan init: enumerate devices: "@ + reason,
        SetupStep::Device => "Vulkan init: Vulkan device: "@ + reason,
        SetupStep::ComputeQueue =>
            "no queue family satisfying request: no COMPUTE queue requested"@,
        SetupStep::CommandPool => "Vulkan init: command pool: "@ + reason,
    }
}

/// Whether the device is destroyed when a step failed.
pub open spec fn destroys_device(step: SetupStep) -> bool {
    step == SetupStep::CommandPool
}

/// Whether the instance is destroyed when a step failed.
pub open spec fn destroys_instance(step: SetupStep) -> bool {
    step == SetupStep::Device || step == SetupStep::CommandPool
}

/// What to report and release when a step failed for `reason`.
pub fn setup_failure(step: SetupStep, reason: &str) -> (r: SetupFailure)
    ensures
        r.error.spec_message() == failure_message(step, reason@),
        r.error is LoaderFailed <==> step == SetupStep::Loader,
        r.error is NoSuitableQueue <==> step == SetupStep::ComputeQueue,
        r.error is InitFailed <==> step != SetupStep::Loader && step != SetupStep::ComputeQueue,
        r.destroy_device == destroys_device(step),
        r.destroy_instance == destroys_instance(step),
{
    let error = match step {
        SetupStep::Loader => VulkanError::LoaderFailed(String::from_str(reason)),
        SetupStep::Instance => VulkanError::InitFailed(joined("Vulkan instance: ", reason)),
        SetupStep::Enumerate => VulkanError::InitFailed(joined("enumerate devices: ", reason)),
        SetupStep::Device => VulkanError::InitFailed(joined("Vulkan device: ", reason)),
        SetupStep::ComputeQueue => VulkanError::NoSuitableQueue(
            String::from_str("no COMPUTE queue requested"),
        ),
        SetupStep::CommandPool => VulkanError::InitFailed(joined("command pool: ", reason)),
    };
    proof {
        reveal_strlit("Vulkan init: ");
        reveal_strlit("Vulkan instance: ");
        reveal_strlit("Vulkan init: Vulkan instance: ");
        reveal_strlit("enumerate devices: ");
        reveal_strlit("Vulkan init: enumerate devices: ");
        reveal_strlit("Vulkan device: ");
        reveal_strlit("Vulkan init: Vulkan device: ");
        reveal_strlit("command pool: ");
        reveal_strlit("Vulkan init: command pool: ");
        reveal_strlit("no queue family satisfying request: ");
        reveal_strlit("no COMPUTE queue requested");
        reveal_strlit("no queue family satisfying request: no COMPUTE queue requested");
        assert(error.spec_message() =~= failure_message(step, reason@));
    }
    SetupFailure {
        error,
        destroy_device: step == SetupStep::CommandPool,
        destroy_instance: step == SetupStep::Device || step == SetupStep::CommandPool,
    }
}

fn joined(prefix: &str, reason: &str) -> (r: String)
    ensures
        r@ == prefix@ + reason@,
{
    let mut r = String::from_str(prefix);
    r.append(reason);
    r
}

/// Where there is no physical device, the instance is destroyed and the error
/// says so.
pub fn no_device() -> (r: SetupFailure)
    ensures
        r == (SetupFailure {
            error: VulkanError::NoDevice,
            destroy_device: false,
            destroy_instance: true,
        }),
{
    SetupFailure { error: VulkanError::NoDevice, destroy_device: false, destroy_instance: true }
}

/// NVIDIA-specific: whether a device has `VK_NV_optical_flow`.
#[must_use]
pub fn has_nvidia_optical_flow(vendor_id: u32, extensions: &Vec<String>) -> (r: bool)
    ensures
        r == (vendor_id == VENDOR_NVIDIA && text::texts(extensions@).contains(
            "VK_NV_optical_flow"@,
        )),
{
    vendor_id == VENDOR_NVIDIA && text::lists(extensions, "VK_NV_optical_flow")
}

/// Lower case of a text, as `str::to_lowercase` of the standard library gives it.
pub uninterp spec fn lowercase(s: Seq<char>) -> Seq<char>;

/// `str::to_lowercase` of the standard library maps a text to its lower case,
/// by the tables of Unicode; the same text gives the same lower case.
#[verifier::external_body]
fn to_lowercase(s: &str) -> (r: String)
    ensures
        r@ == lowercase(s@),
{
    s.to_lowercase()
}

/// Whether a device name in lower case is that of an RDNA3 device or newer.
pub open spec fn names_rdna3(name: Seq<char>) -> bool {
    ||| text::occurs(name, "rx 7"@)
    ||| text::occurs(name, "rx 9"@)
    ||| text::occurs(name, "rdna 3"@)
    ||| text::occurs(name, "rdna 4"@)
    ||| text::occurs(name, "radeon 7"@)
    ||| text::occurs(name, "radeon 9"@)
}

/// Whether a device name in lower case is that of an RDNA3 device or newer.
#[must_use]
pub fn is_rdna3_name(name: &str) -> (r: bool)
    ensures
        r == names_rdna3(name@),
{
    text::contains(name, "rx 7") || text::contains(name, "rx 9") || text::contains(name, "rdna 3")
        || text::contains(name, "rdna 4") || text::contains(name, "radeon 7")
        || text::contains(name, "radeon 9")
}

/// AMD-specific: whether a device is RDNA3 (RX 7000) or newer.
#[must_use]
pub fn is_rdna3_plus(vendor_id: u32, device_name: &str) -> (r: bool)
    ensures
        r == (vendor_id == VENDOR_AMD && names_rdna3(lowercase(device_name@))),
{
    vendor_id == VENDOR_AMD && is_rdna3_name(to_lowercase(device_name).as_str())
}

/// The family for a capability serves the first entry of the request that asks for it,
/// and there is none only where no entry does.
pub proof fn law_family_serves_the_first_that_asks(
    queues: Seq<QueueCapabilities>,
    selected: Seq<u32>,
    bit: u32,
    i: int,
)
    requires
        0 <= i < queues.len(),
        queues::covers(queues[i].spec_bits(), bit),
        forall|j: int| 0 <= j < i ==> !queues::covers((#[trigger] queues[j]).spec_bits(), bit),
    ensures
        family_for(queues, selected, bit) == Some(selected[i]),
{
    lemma_first_with(queues, bit);
}

/// A request none of whose entries asks for a capability has no family for it.
pub proof fn law_no_family_where_none_asks(
    queues: Seq<QueueCapabilities>,
    selected: Seq<u32>,
    bit: u32,
)
    requires
        forall|j: int|
            0 <= j < queues.len() ==> !queues::covers((#[trigger] queues[j]).spec_bits(), bit),
    ensures
        family_for(queues, selected, bit) is None,
{
    lemma_first_with(queues, bit);
}

/// The extensions of the caller are all needed and come first. Where some entry encodes
/// video, those of the video queue and of each codec follow; otherwise nothing does.
pub proof fn law_video_needs_its_extensions(
    request: QueueRequest,
    extensions: Seq<Seq<char>>,
    i: int,
    j: int,
)
    ensures
        ({
            let all = needed_extensions(request, extensions);
            let n = extensions.len() as int;
            let codecs = request.video_codecs@;
            let encodes = 0 <= j < request.queues@.len() && request.queues@[j].spec_bits() & 4 != 0;
            &&& all.subrange(0, n) == extensions
            &&& encodes ==> {
                &&& all.len() == n + 2 + codecs.len()
                &&& all[n] == "VK_KHR_video_queue"@
                &&& all[n + 1] == "VK_KHR_video_encode_queue"@
                &&& 0 <= i < codecs.len() ==> all[n + 2 + i] == match codecs[i] {
                    VideoCodec::H264 => "VK_KHR_video_encode_h264"@,
                    VideoCodec::H265 => "VK_KHR_video_encode_h265"@,
                    VideoCodec::Av1 => "VK_KHR_video_encode_av1"@,
                }
            }
            &&& (forall|k: int|
                0 <= k < request.queues@.len() ==> (#[trigger] request.queues@[k]).spec_bits() & 4
                    == 0) ==> all == extensions
        }),
{
    let n = extensions.len() as int;
    assert(needed_extensions(request, extensions).subrange(0, n) =~= extensions);
    if 0 <= j < request.queues@.len() {
        let b = request.queues@[j].spec_bits();
        queues::law_family_has_each_capability(0, b);
    }
    assert forall|k: int|
        0 <= k < request.queues@.len() && (#[trigger] request.queues@[k]).spec_bits() & 4
            == 0 implies !queues::covers(request.queues@[k].spec_bits(), 4) by {
        queues::law_family_has_each_capability(0, request.queues@[k].spec_bits());
    }
}

/// A name in which one of the marks of the newer devices stands, wherever it stands, is
/// that of an RDNA3 device or newer.
pub proof fn law_newer_devices_are_known_by_their_names(before: Seq<char>, after: Seq<char>)
    ensures
        names_rdna3(before + "rx 7"@ + after),
        names_rdna3(before + "rx 9"@ + after),
        names_rdna3(before + "rdna 3"@ + after),
        names_rdna3(before + "rdna 4"@ + after),
        names_rdna3(before + "radeon 7"@ + after),
        names_rdna3(before + "radeon 9"@ + after),
{
    lemma_stands_in(before, "rx 7"@, after);
    lemma_stands_in(before, "rx 9"@, after);
    lemma_stands_in(before, "rdna 3"@, after);
    lemma_stands_in(before, "rdna 4"@, after);
    lemma_stands_in(before, "radeon 7"@, after);
    lemma_stands_in(before, "radeon 9"@, after);
}

proof fn lemma_stands_in(before: Seq<char>, mark: Seq<char>, after: Seq<char>)
    ensures
        text::occurs(before + mark + after, mark),
{
    let all = before + mark + after;
    let n = before.len() as int;
    assert(all.subrange(n, n + mark.len()) =~= mark);
}

/// A discrete GPU is taken wherever there is one, and the first of them; otherwise the
/// first device. It fails only where there is none.
pub proof fn law_discrete_devices_are_preferred(
    discrete: Seq<bool>,
    r: Result<usize, VulkanError>,
    i: int,
)
    requires
        is_choice(discrete, r),
    ensures
        r is Err <==> discrete.len() == 0,
        r matches Ok(k) ==> {
            &&& k < discrete.len()
            &&& 0 <= i < discrete.len() && discrete[i] ==> discrete[k as int] && k <= i
            &&& !discrete.contains(true) ==> k == 0
        },
{
}

/// A plan holds together. Every entry of the request gets a family of the device that has
/// what it asks for, the family for compute shaders has these, and the one for encoding
/// video has that. One queue is asked for in each family that is used, in ascending order.
/// An extension is enabled exactly where it is needed and the device has it, and the AV1
/// feature where that codec is asked for.
pub proof fn law_plan_holds_together(
    request: QueueRequest,
    extensions: Seq<Seq<char>>,
    families: Seq<u32>,
    available: Seq<Seq<char>>,
    plan: DevicePlan,
    i: int,
    f: u32,
    name: Seq<char>,
)
    requires
        fits_request(request, extensions, families, available, plan),
    ensures
        plan.selected@.len() == request.queues@.len(),
        0 <= i < request.queues@.len() ==> {
            let wanted = request.queues@[i].spec_bits();
            let flags = families[plan.selected@[i] as int];
            &&& plan.selected@[i] < families.len()
            &&& wanted & 1 != 0 ==> flags & 2 != 0
            &&& wanted & 2 != 0 ==> flags & 4 != 0
            &&& wanted & 4 != 0 ==> flags & 64 != 0
        },
        plan.compute_family == Some(f) ==> f < families.len() && families[f as int] & 2 != 0,
        plan.encode_family == Some(f) ==> f < families.len() && families[f as int] & 64 != 0,
        0 <= i < request.queues@.len() && request.queues@[i].spec_bits() & 1 != 0
            ==> plan.compute_family is Some,
        0 <= i < request.queues@.len() && request.queues@[i].spec_bits() & 4 != 0
            ==> plan.encode_family is Some,
        plan.unique_families@.contains(f) <==> plan.selected@.contains(f),
        0 < i < plan.unique_families@.len() ==> plan.unique_families@[i - 1]
            < plan.unique_families@[i],
        text::texts(plan.extensions@).contains(name) <==> available.contains(name)
            && needed_extensions(request, extensions).contains(name),
        plan.av1 <==> request.video_codecs@.contains(VideoCodec::Av1),
{
    let bits = queues::all_bits(request.queues@);
    let selected = plan.selected@;
    assert forall|k: int| 0 <= k < selected.len() implies (#[trigger] selected[k])
        < families.len() && queues::covers(
        families[selected[k] as int],
        queues::vk_flags(request.queues@[k].spec_bits()),
    ) by {
        assert(bits[k] == request.queues@[k].spec_bits());
    }
    if 0 <= i < request.queues@.len() {
        queues::law_family_has_each_capability(
            families[selected[i] as int],
            request.queues@[i].spec_bits(),
        );
    }
    let c = first_with(request.queues@, 1);
    let e = first_with(request.queues@, 4);
    lemma_first_with(request.queues@, 1);
    lemma_first_with(request.queues@, 4);
    if c < request.queues@.len() {
        queues::law_family_has_each_capability(
            families[selected[c] as int],
            request.queues@[c].spec_bits(),
        );
    }
    if e < request.queues@.len() {
        queues::law_family_has_each_capability(
            families[selected[e] as int],
            request.queues@[e].spec_bits(),
        );
    }
    assert(plan.unique_families@.contains(f) <==> plan.unique_families@.to_set().contains(f));
    assert(plan.selected@.contains(f) <==> plan.selected@.to_set().contains(f));
    let keep = |x: Seq<char>| available.contains(x);
    lemma_kept(needed_extensions(request, extensions), keep, name);
}

proof fn lemma_kept(all: Seq<Seq<char>>, keep: spec_fn(Seq<char>) -> bool, name: Seq<char>)
    ensures
        all.filter(keep).contains(name) <==> all.contains(name) && keep(name),
    decreases all.len(),
{
    reveal(Seq::filter);
    if all.len() > 0 {
        let init = all.drop_last();
        let last = all.last();
        lemma_kept(init, keep, name);
        assert(all =~= init.push(last));
        assert(all.contains(name) <==> init.contains(name) || last == name) by {
            if all.contains(name) {
                let k = choose|k: int| 0 <= k < all.len() && all[k] == name;
                if k < init.len() {
                    assert(init[k] == name);
                }
            }
            if init.contains(name) {
                let k = choose|k: int| 0 <= k < init.len() && init[k] == name;
                assert(all[k] == name);
            }
            assert(all[all.len() - 1] == last);
        }
        let kept = init.filter(keep);
        if keep(last) {
            assert(all.filter(keep) == kept.push(last));
            assert(kept.push(last).contains(name) <==> kept.contains(name) || last == name) by {
                if kept.push(last).contains(name) {
                    let k = choose|k: int|
                        0 <= k < kept.push(last).len() && kept.push(last)[k] == name;
                    if k < kept.len() {
                        assert(kept[k] == name);
                    }
                }
                if kept.contains(name) {
                    let k = choose|k: int| 0 <= k < kept.len() && kept[k] == name;
                    assert(kept.push(last)[k] == name);
                }
                assert(kept.push(last)[kept.len() as int] == last);
            }
        }
    }
}

/// What is destroyed exists: the instance only from the step after its creation on, the
/// device only after its own. A device is never destroyed without its instance.
pub proof fn law_only_what_exists_is_destroyed(step: SetupStep)
    ensures
        destroys_instance(step) ==> !(step is Loader) && !(step is Instance),
        destroys_device(step) ==> step is ComputeQueue || step is CommandPool,
        destroys_device(step) ==> destroys_instance(step),
        step is Device ==> destroys_instance(step) && !destroys_device(step),
        step is CommandPool ==> destroys_instance(step) && destroys_device(step),
{
}

/// The validation layer is switched on by the text `1` and by nothing else.
pub proof fn law_validation_is_asked_for_by_one(value: Seq<char>)
    ensures
        wants_validation(Some(value)) <==> value.len() == 1 && value[0] == '1',
        !wants_validation(None),
{
    reveal_strlit("1");
    if value.len() == 1 && value[0] == '1' {
        assert(value =~= "1"@);
    }
}

} // verus!
