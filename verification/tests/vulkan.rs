use remoteway::vulkan::blit;
use remoteway::vulkan::blit::{filter, BlitFilter};
use remoteway::vulkan::context::{
    choose_device, has_nvidia_optical_flow, is_rdna3_name, is_rdna3_plus, no_device, plan_device,
    plan_instance, setup_failure, SetupStep,
};
use remoteway::vulkan::memory::{
    allocation_failure, find_memory_type, image_usage, needs_view, AllocationStep, MemoryKind,
    ObjectKind,
};
use remoteway::vulkan::program::{groups, Layout, Step};
use remoteway::vulkan::queues::{solve, unique_families};
use remoteway::vulkan::video::CodecLimits;
use remoteway::vulkan::{
    QueueCapabilities, QueueRequest, VideoCodec, VideoEncodeCapabilities, VulkanError,
};

const COMPUTE: u32 = 2;
const TRANSFER: u32 = 4;
const ENCODE: u32 = 64;

fn names(list: &[&str]) -> Vec<String> {
    list.iter().map(|s| s.to_string()).collect()
}

// --- Queues ---

#[test]
fn queue_request_compute_only_has_compute() {
    let req = QueueRequest::compute_only();
    assert_eq!(req.queues.len(), 1);
    assert!(req.queues[0].contains(QueueCapabilities::compute()));
    assert!(req.video_codecs.is_empty());
}

#[test]
fn queue_request_compute_and_encode_lists_both() {
    let req = QueueRequest::compute_and_encode(VideoCodec::H265);
    assert_eq!(req.queues.len(), 2);
    assert!(req.queues.iter().any(|c| c.contains(QueueCapabilities::compute())));
    assert!(req.queues.iter().any(|c| c.contains(QueueCapabilities::video_encode())));
    assert_eq!(req.video_codecs, vec![VideoCodec::H265]);
}

#[test]
fn queue_capabilities_to_vk_includes_video_encode_bit() {
    let caps = QueueCapabilities::video_encode();
    let vk_flags = ash::vk::QueueFlags::from_raw(caps.to_vk_queue_flags());
    assert!(vk_flags.contains(ash::vk::QueueFlags::VIDEO_ENCODE_KHR));
}

#[test]
fn queue_capabilities_map_to_their_flags() {
    let both = QueueCapabilities::compute().union(QueueCapabilities::transfer());
    assert_eq!(
        both.to_vk_queue_flags(),
        (ash::vk::QueueFlags::COMPUTE | ash::vk::QueueFlags::TRANSFER).as_raw()
    );
    assert!(both.contains(QueueCapabilities::transfer()));
    assert!(!both.contains(QueueCapabilities::video_encode()));
    assert_eq!(both.text(), "QueueCapabilities(COMPUTE | TRANSFER)");
    assert_eq!(
        QueueCapabilities::video_encode().text(),
        "QueueCapabilities(VIDEO_ENCODE)"
    );
}

#[test]
fn one_family_is_preferred_to_two() {
    let req = QueueRequest::compute_and_encode(VideoCodec::H264);
    // The first family that serves each entry would be 0 and 1; family 2 serves both.
    let families = vec![
        COMPUTE | TRANSFER,
        ENCODE,
        COMPUTE | TRANSFER | ENCODE,
    ];
    assert_eq!(solve(&req.queues, &families).unwrap(), vec![2, 2]);
    // Without it the first ones are taken.
    assert_eq!(
        solve(&req.queues, &families[..2].to_vec()).unwrap(),
        vec![0, 1]
    );
}

#[test]
fn the_first_of_several_families_is_taken() {
    let req = QueueRequest::compute_only();
    let families = vec![TRANSFER, COMPUTE | TRANSFER | 1, COMPUTE | TRANSFER];
    assert_eq!(solve(&req.queues, &families).unwrap(), vec![1]);
}

#[test]
fn an_entry_that_no_family_serves_is_named() {
    let req = QueueRequest::compute_and_encode(VideoCodec::H264);
    assert_eq!(solve(&req.queues, &vec![COMPUTE | TRANSFER]).unwrap_err(), 1);
    assert_eq!(solve(&req.queues, &vec![]).unwrap_err(), 0);
}

#[test]
fn unique_families_are_sorted() {
    assert_eq!(unique_families(&vec![3, 1, 3, 0, 1]), vec![0, 1, 3]);
    assert!(unique_families(&vec![]).is_empty());
}

// --- Device setup ---

#[test]
fn a_request_without_a_queue_is_refused() {
    let empty = QueueRequest {
        queues: vec![],
        video_codecs: vec![],
    };
    match plan_instance(&empty, &None) {
        Err(e) => assert_eq!(
            e.message(),
            "no queue family satisfying request: QueueRequest must include at least one queue"
        ),
        Ok(_) => panic!("there is no queue"),
    }
}

#[test]
fn validation_is_switched_on_by_a_one() {
    let req = QueueRequest::compute_only();
    assert!(plan_instance(&req, &Some("1".to_string())).unwrap());
    assert!(!plan_instance(&req, &Some("yes".to_string())).unwrap());
    assert!(!plan_instance(&req, &None).unwrap());
}

#[test]
fn a_discrete_device_is_preferred() {
    assert_eq!(choose_device(&vec![false, false, true, true]).unwrap(), 2);
    assert_eq!(choose_device(&vec![false, false]).unwrap(), 0);
    assert!(matches!(choose_device(&vec![]), Err(VulkanError::NoDevice)));
    assert!(no_device().destroy_instance);
}

#[test]
fn a_device_gets_the_extensions_that_it_has() {
    let req = QueueRequest::compute_and_encode(VideoCodec::Av1);
    let available = names(&[
        "VK_KHR_video_encode_av1",
        "VK_KHR_video_queue",
        "VK_OTHER",
        "VK_NV_optical_flow",
    ]);
    let plan = plan_device(
        &req,
        &names(&["VK_NV_optical_flow", "VK_MISSING"]),
        &vec![COMPUTE | TRANSFER, ENCODE],
        &available,
    )
    .unwrap();
    assert_eq!(
        plan.extensions,
        names(&["VK_NV_optical_flow", "VK_KHR_video_queue", "VK_KHR_video_encode_av1"])
    );
    assert!(plan.av1);
    assert_eq!(plan.selected, vec![0, 1]);
    assert_eq!(plan.unique_families, vec![0, 1]);
    assert_eq!(plan.compute_family, Some(0));
    assert_eq!(plan.encode_family, Some(1));
}

#[test]
fn a_compute_device_needs_no_video_extensions() {
    let plan = plan_device(
        &QueueRequest::compute_only(),
        &vec![],
        &vec![COMPUTE | TRANSFER],
        &names(&["VK_KHR_video_queue"]),
    )
    .unwrap();
    assert!(plan.extensions.is_empty());
    assert!(!plan.av1);
    assert_eq!(plan.encode_family, None);
    match plan_device(&QueueRequest::compute_only(), &vec![], &vec![ENCODE], &vec![]) {
        Err(e) => assert_eq!(
            e.message(),
            "no queue family satisfying request: QueueCapabilities(COMPUTE | TRANSFER)"
        ),
        Ok(_) => panic!("there is no compute family"),
    }
}

#[test]
fn a_failed_setup_releases_what_it_made() {
    let f = setup_failure(SetupStep::CommandPool, "out of memory");
    assert_eq!(f.error.message(), "Vulkan init: command pool: out of memory");
    assert!(f.destroy_device && f.destroy_instance);
    let f = setup_failure(SetupStep::Device, "lost");
    assert!(!f.destroy_device && f.destroy_instance);
    let f = setup_failure(SetupStep::Loader, "not found");
    assert_eq!(f.error.message(), "Vulkan loader: not found");
    assert!(!f.destroy_device && !f.destroy_instance);
    let f = setup_failure(SetupStep::ComputeQueue, "");
    assert!(f.error.message().contains("no COMPUTE queue requested"));
}

#[test]
fn devices_are_recognized() {
    let exts = names(&["VK_NV_optical_flow"]);
    assert!(has_nvidia_optical_flow(0x10DE, &exts));
    assert!(!has_nvidia_optical_flow(0x1002, &exts));
    assert!(!has_nvidia_optical_flow(0x10DE, &vec![]));
    assert!(is_rdna3_plus(0x1002, "AMD Radeon RX 7900 XTX"));
    assert!(is_rdna3_plus(0x1002, "RADEON 9070"));
    assert!(!is_rdna3_plus(0x1002, "AMD Radeon RX 6800"));
    assert!(!is_rdna3_plus(0x10DE, "RX 7900"));
    assert!(is_rdna3_name("amd rdna 4 graphics"));
    assert!(!is_rdna3_name("RDNA 4"));
}

// --- Video ---

#[test]
fn codecs_have_their_extensions_and_operations() {
    assert_eq!(VideoCodec::H264.encode_extension(), "VK_KHR_video_encode_h264");
    assert_eq!(
        VideoCodec::H264.codec_operation(),
        ash::vk::VideoCodecOperationFlagsKHR::ENCODE_H264.as_raw()
    );
    assert_eq!(
        VideoCodec::H265.codec_operation(),
        ash::vk::VideoCodecOperationFlagsKHR::ENCODE_H265.as_raw()
    );
    assert_eq!(VideoCodec::Av1.codec_operation(), 0x40000);
}

#[test]
fn capabilities_are_put_together() {
    let limits = CodecLimits {
        max_coded_extent: (4096, 2160),
        min_coded_extent: (64, 64),
        picture_access_granularity: (16, 16),
        max_dpb_slots: 17,
        max_active_reference_pictures: 4,
        rate_control_modes: None,
    };
    let caps = VideoEncodeCapabilities::assemble(
        VideoCodec::H265,
        limits,
        &names(&["VK_KHR_video_encode_intra_refresh"]),
    );
    assert_eq!(caps.codec, VideoCodec::H265);
    assert_eq!(caps.max_coded_extent, (4096, 2160));
    assert_eq!(caps.rate_control_modes, 0);
    assert!(caps.supports_intra_refresh);
    assert!(!caps.supports_quantization_map);
}

// --- Errors ---

#[test]
fn vulkan_errors_have_messages() {
    assert_eq!(
        VulkanError::NoDevice.message(),
        "no Vulkan-capable physical device"
    );
    assert_eq!(
        VulkanError::call("queue_submit", "ERROR_DEVICE_LOST").message(),
        "Vulkan call failed: queue_submit (ERROR_DEVICE_LOST)"
    );
    assert_eq!(
        VulkanError::MissingExtension("VK_X".to_string()).message(),
        "required extension missing: VK_X"
    );
    assert_eq!(
        VulkanError::Allocation("x".to_string()).message(),
        "memory allocation failed: x"
    );
}

// --- Memory ---

#[test]
fn memory_kinds_ask_for_their_properties() {
    let host = ash::vk::MemoryPropertyFlags::HOST_VISIBLE
        | ash::vk::MemoryPropertyFlags::HOST_COHERENT;
    let cached = host | ash::vk::MemoryPropertyFlags::HOST_CACHED;
    let device = ash::vk::MemoryPropertyFlags::DEVICE_LOCAL;
    assert_eq!(MemoryKind::Device.properties(), (device.as_raw(), None));
    assert_eq!(MemoryKind::Host.properties(), (host.as_raw(), None));
    assert_eq!(MemoryKind::HostCached.properties(), (cached.as_raw(), None));
    assert_eq!(
        MemoryKind::DeviceOrHost.properties(),
        (device.as_raw(), Some(host.as_raw()))
    );
    assert_eq!(
        MemoryKind::HostCachedOrHost.properties(),
        (cached.as_raw(), Some(host.as_raw()))
    );
}

#[test]
fn the_first_suitable_memory_type_is_found() {
    let types = vec![1, 6, 14, 7];
    assert_eq!(find_memory_type(&types, 0b1111, 6), Some(1));
    assert_eq!(find_memory_type(&types, 0b1100, 6), Some(2));
    assert_eq!(find_memory_type(&types, 0b1000, 1), Some(3));
    assert_eq!(find_memory_type(&types, 0b0111, 16), None);
    assert_eq!(find_memory_type(&types, 0, 0), None);
    assert_eq!(find_memory_type(&vec![8; 32], 1 << 31, 8), Some(31));
}

#[test]
fn a_failed_allocation_releases_what_it_made() {
    let f = allocation_failure(ObjectKind::Buffer, AllocationStep::Bind, "oom");
    assert_eq!(f.message, "bind memory: oom");
    assert!(f.free_memory && f.destroy_object);
    let f = allocation_failure(ObjectKind::Image, AllocationStep::FindMemory, "");
    assert_eq!(f.message, "no device-local memory for image");
    assert!(!f.free_memory && f.destroy_object);
    let f = allocation_failure(ObjectKind::FsrImage, AllocationStep::Create, "oom");
    assert_eq!(f.message, "create fsr image: oom");
    assert!(!f.free_memory && !f.destroy_object);
    let f = allocation_failure(ObjectKind::FlowImage, AllocationStep::View, "oom");
    assert_eq!(f.message, "create image view: oom");
    let f = allocation_failure(ObjectKind::ComputeImage, AllocationStep::Bind, "oom");
    assert_eq!(f.message, "oom");
    assert!(!f.free_memory && !f.destroy_object);
}

// --- Programs ---

#[test]
fn groups_round_up() {
    assert_eq!(groups(0, 16), 0);
    assert_eq!(groups(1, 16), 1);
    assert_eq!(groups(16, 16), 1);
    assert_eq!(groups(17, 16), 2);
    assert_eq!(groups(u32::MAX, 2), 1 << 31);
}

#[test]
fn a_blit_uploads_scales_and_reads_back() {
    let plan = blit::plan(640, 480, 1920, 1080);
    assert_eq!(plan.buffers[blit::STAGING].size, 640 * 480 * 4);
    assert_eq!(plan.buffers[blit::READBACK].size, 1920 * 1080 * 4);
    assert_eq!(plan.images[blit::DST_IMAGE].width, 1920);
    let steps = blit::upscale_blit(640, 480, 1920, 1080);
    assert_eq!(steps.len(), 7);
    assert_eq!(steps[4], Step::Blit { src: 0, dst: 1 });
    let moves: Vec<(usize, Layout, Layout)> = steps
        .iter()
        .filter_map(|s| match s {
            Step::ImageBarrier { image, from, to, .. } => Some((*image, *from, *to)),
            _ => None,
        })
        .collect();
    assert_eq!(
        moves,
        vec![
            (0, Layout::Undefined, Layout::TransferDst),
            (0, Layout::TransferDst, Layout::TransferSrc),
            (1, Layout::Undefined, Layout::TransferDst),
            (1, Layout::TransferDst, Layout::TransferSrc),
        ]
    );
}

#[test]
fn an_upscale_is_bilinear() {
    assert_eq!(filter(), BlitFilter::Linear);
}

#[test]
fn images_are_used_as_their_kind_says() {
    let usage = |kind| {
        let u = image_usage(kind);
        (u.transfer_src, u.transfer_dst, u.storage, u.sampled)
    };
    assert_eq!(usage(ObjectKind::Image), (true, true, false, false));
    assert_eq!(usage(ObjectKind::FlowImage), (true, true, true, false));
    assert_eq!(usage(ObjectKind::FsrImage), (true, true, true, true));
    assert_eq!(usage(ObjectKind::ComputeImage), (true, true, true, true));
    assert!(needs_view(ObjectKind::FlowImage) && !needs_view(ObjectKind::Image));
}
