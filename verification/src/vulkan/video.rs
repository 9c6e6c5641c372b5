//! Video encode capability discovery.

use vstd::prelude::*;

use crate::text;

verus! {

/// Video codec supported by Vulkan Video encode extensions.
#[derive(Debug, Clone, Copy, PartialEq, Eq, Structural, Hash)]
pub enum VideoCodec {
    H264,
    H265,
    Av1,
}

/// `ash::vk::VideoCodecOperationFlagsKHR::ENCODE_H264` is the flag of bit 16,
/// and `as_raw` hands out the bits of a flag set.
#[verifier::external_body]
fn encode_h264() -> (r: u32)
    ensures
        r == 0x0001_0000,
{
    ash::vk::VideoCodecOperationFlagsKHR::ENCODE_H264.as_raw()
}

/// `ash::vk::VideoCodecOperationFlagsKHR::ENCODE_H265` is the flag of bit 17,
/// and `as_raw` hands out the bits of a flag set.
#[verifier::external_body]
fn encode_h265() -> (r: u32)
    ensures
        r == 0x0002_0000,
{
    ash::vk::VideoCodecOperationFlagsKHR::ENCODE_H265.as_raw()
}

/// Bit of the AV1 encode operation, `VK_VIDEO_CODEC_OPERATION_ENCODE_AV1_BIT_KHR`.
pub const ENCODE_AV1: u32 = 0x0004_0000;

impl VideoCodec {
    /// Name of the extension as a spec.
    pub open spec fn spec_encode_extension(self) -> Seq<char> {
        match self {
            VideoCodec::H264 => "VK_KHR_video_encode_h264"@,
            VideoCodec::H265 => "VK_KHR_video_encode_h265"@,
            VideoCodec::Av1 => "VK_KHR_video_encode_av1"@,
        }
    }

    /// Extension name string corresponding to this codec's encode extension.
    #[must_use]
    pub fn encode_extension(self) -> (r: &'static str)
        ensures
            r@ == self.spec_encode_extension(),
    {
        match self {
            VideoCodec::H264 => "VK_KHR_video_encode_h264",
            VideoCodec::H265 => "VK_KHR_video_encode_h265",
            VideoCodec::Av1 => "VK_KHR_video_encode_av1",
        }
    }

    /// Maps to the bits of the Vulkan video codec operation flag advertised by
    /// the driver.
    #[must_use]
    pub fn codec_operation(self) -> (r: u32)
        ensures
            r == match self {
                VideoCodec::H264 => 0x0001_0000u32,
                VideoCodec::H265 => 0x0002_0000,
                VideoCodec::Av1 => 0x0004_0000,
            },
    {
        match self {
            VideoCodec::H264 => encode_h264(),
            VideoCodec::H265 => encode_h265(),
            VideoCodec::Av1 => ENCODE_AV1,
        }
    }
}

/// What the driver reports of its limits for one codec.
#[derive(Debug, Clone, Copy)]
pub struct CodecLimits {
    pub max_coded_extent: (u32, u32),
    pub min_coded_extent: (u32, u32),
    pub picture_access_granularity: (u32, u32),
    pub max_dpb_slots: u32,
    pub max_active_reference_pictures: u32,
    /// Bits of the rate control modes; none where the driver does not say.
    pub rate_control_modes: Option<u32>,
}

/// Snapshot of what the selected physical device can encode.
///
/// Used to pick a codec and to validate user-supplied parameters (resolution
/// bounds, supported rate-control modes, etc.).
#[derive(Debug, Clone, Copy)]
pub struct VideoEncodeCapabilities {
    pub codec: VideoCodec,
    pub max_coded_extent: (u32, u32),
    pub min_coded_extent: (u32, u32),
    pub picture_access_granularity: (u32, u32),
    pub max_dpb_slots: u32,
    pub max_active_reference_pictures: u32,
    pub rate_control_modes: u32,
    pub supports_intra_refresh: bool,
    pub supports_quantization_map: bool,
}

/// What the device can encode with `codec`.
pub open spec fn assembled(
    codec: VideoCodec,
    limits: CodecLimits,
    extensions: Seq<Seq<char>>,
) -> VideoEncodeCapabilities {
    VideoEncodeCapabilities {
        codec,
        max_coded_extent: limits.max_coded_extent,
        min_coded_extent: limits.min_coded_extent,
        picture_access_granularity: limits.picture_access_granularity,
        max_dpb_slots: limits.max_dpb_slots,
        max_active_reference_pictures: limits.max_active_reference_pictures,
        rate_control_modes: match limits.rate_control_modes {
            Some(modes) => modes,
            None => 0,
        },
        supports_intra_refresh: extensions.contains("VK_KHR_video_encode_intra_refresh"@),
        supports_quantization_map: extensions.contains("VK_KHR_video_encode_quantization_map"@),
    }
}

impl VideoEncodeCapabilities {
    /// What the device can encode with `codec`, from the limits that the driver
    /// reports and the names of the extensions that the device has.
    #[must_use]
    pub fn assemble(codec: VideoCodec, limits: CodecLimits, extensions: &Vec<String>) -> (r:
        VideoEncodeCapabilities)
        ensures
            r == assembled(codec, limits, text::texts(extensions@)),
    {
        VideoEncodeCapabilities {
            codec,
            max_coded_extent: limits.max_coded_extent,
            min_coded_extent: limits.min_coded_extent,
            picture_access_granularity: limits.picture_access_granularity,
            max_dpb_slots: limits.max_dpb_slots,
            max_active_reference_pictures: limits.max_active_reference_pictures,
            rate_control_modes: match limits.rate_control_modes {
                Some(modes) => modes,
                None => 0,
            },
            supports_intra_refresh: text::lists(extensions, "VK_KHR_video_encode_intra_refresh"),
            supports_quantization_map: text::lists(
                extensions,
                "VK_KHR_video_encode_quantization_map",
            ),
        }
    }
}

/// What the device can encode is what the driver reports for the codec, with no rate
/// control modes where it does not say. What the extensions add is there exactly where
/// they are listed.
pub proof fn law_capabilities_are_as_reported(
    codec: VideoCodec,
    limits: CodecLimits,
    extensions: Seq<Seq<char>>,
)
    ensures
        ({
            let c = assembled(codec, limits, extensions);
            &&& c.codec == codec
            &&& c.max_coded_extent == limits.max_coded_extent
            &&& c.min_coded_extent == limits.min_coded_extent
            &&& c.picture_access_granularity == limits.picture_access_granularity
            &&& c.max_dpb_slots == limits.max_dpb_slots
            &&& c.max_active_reference_pictures == limits.max_active_reference_pictures
            &&& limits.rate_control_modes matches Some(modes) ==> c.rate_control_modes == modes
            &&& limits.rate_control_modes is None ==> c.rate_control_modes == 0
            &&& c.supports_intra_refresh <==> extensions.contains(
                "VK_KHR_video_encode_intra_refresh"@,
            )
            &&& c.supports_quantization_map <==> extensions.contains(
                "VK_KHR_video_encode_quantization_map"@,
            )
        }),
{
}

} // verus!
