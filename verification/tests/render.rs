use ash::vk;
use schorl::error::{DetailValue, Error, ErrorCode};
use schorl::frame::PixelFormat;
use schorl::render::calls::{draw_calls, CallRun, DeviceCall, DevicePart, Procedure};
use schorl::render::dmabuf::{
    check_export_path, export_format, export_plane_count, fourcc, frame_vk_format,
    import_memory_type, measurement_modifiers, plan_import, probe_modifiers, usable_modifiers,
    DmabufDescriptor,
    DmabufPlane, DrmFormat, DrmModifier, ExportedDmabuf, ModifierOffer, VK_FORMAT_B8G8R8A8_SRGB,
    VK_FORMAT_B8G8R8A8_UNORM, VK_FORMAT_R8G8B8A8_SRGB, VK_FORMAT_R8G8B8A8_UNORM,
};
use schorl::render::facts::{RenderFacts, TextureRoute};
use schorl::render::probe::{
    assert_route, check_copied_pixels, check_shared_pixels, check_shown, tiled_frame,
    count_mismatches, distinct_pixels, exported_json, gradient_frame, inspect_submitted_image,
    modifiers_json, never_running, ppm_bytes, probe_step, sampled_json, shift_one_channel,
    surfaces_json, wants_capture, Calibration, ProbeStep, SubmittedImageReport,
};
use schorl::render::renderer::{
    check_max_surfaces, check_surface_count, plan_view, spirv_words, DrawCommand,
};
use schorl::render::session::{
    check_background, check_image_index, check_opaque_background, check_view_configuration,
    check_view_count, check_vulkan_enable2, choose_color_format, choose_reference_space,
    count_advertised, exit_request_outcome, forced_end_outcome, jitter_millionths, plan_frame,
    xr_loader_missing, CloseStep, FrameStep, ReadyStep, ReadyWait, ReferenceSpace, RuntimeState,
    SessionOpening, SessionTracker, StateOrder, XrCall, XrVulkanFacts, XrVulkanRuntime, PREFERRED_COLOR_FORMATS,
};
use schorl::render::shaders::{
    compiler_args, is_glslc, names_to_try, places_to_look, validator_args,
};
use schorl::render::texture::{check_read_back_extent, read_back_size, staging_region, staging_size};
use schorl::render::vulkan::{
    api_version_text, check_c_name, check_vulkan_1_1, device_name, dmabuf_device_extensions,
    find_memory_type, loader_missing, openxr_failure, pick_graphics_queue, pick_physical_device,
    present_dmabuf_extensions, vulkan_failure, DeviceOffer, RuntimeVersion, VulkanDeviceFacts,
};
use schorl::retry::{Backoff, MAX_RETRIES_LIMIT};
use schorl::scope::Background;
use schorl::time::UtcTimestamp;
use schorl::xr::SessionState;

fn detail(err: &Error, key: &str) -> Option<DetailValue> {
    err.details()
        .iter()
        .iter()
        .find(|(k, _)| *k == key)
        .map(|(_, v)| (*v).clone())
}

fn text(value: &str) -> Option<DetailValue> {
    Some(DetailValue::Text(value.to_owned()))
}

fn at(millis: i64) -> UtcTimestamp {
    UtcTimestamp::from_millis_since_epoch(millis)
}

// Layouts.

#[test]
fn fourcc_matches_the_drm_header_verbatim() {
    assert_eq!(DrmFormat::xrgb8888().as_fourcc_string(), "XR24");
    assert_eq!(DrmFormat::argb8888().as_fourcc_string(), "AR24");
    assert_eq!(DrmFormat::xrgb8888().as_u32(), 0x3432_5258);
    assert_eq!(DrmFormat::argb8888().as_u32(), 0x3432_5241);
}

#[test]
fn linear_modifier_is_vendor_none_value_zero() {
    assert_eq!(DrmModifier::linear().as_u64(), 0);
    assert_eq!(DrmModifier::linear().vendor(), 0);
    assert_eq!(DrmModifier::from_u64(0x0300_0000_0060_6010).vendor(), 3);
}

#[test]
fn both_pinned_pixel_formats_have_a_vulkan_format() {
    for format in [PixelFormat::Xrgb8888, PixelFormat::Argb8888] {
        let drm = DrmFormat::from_pixel_format(format);
        assert!(drm.to_vk_format().is_some(), "{format:?} has no VkFormat");
        assert_eq!(
            frame_vk_format(format).expect("known"),
            vk::Format::B8G8R8A8_UNORM.as_raw()
        );
    }
}

#[test]
fn an_unknown_fourcc_has_no_vulkan_format() {
    let unknown = DrmFormat::from_u32(fourcc(b'N', b'V', b'1', b'2'));
    assert!(unknown.to_vk_format().is_none());
    assert_eq!(unknown.as_fourcc_string(), "NV12");
}

#[test]
fn an_unmappable_fourcc_is_refused_not_guessed() {
    let xrgb = DrmFormat::xrgb8888();
    assert!(xrgb.to_vk_format().is_some());
    assert_eq!(xrgb.as_fourcc_string(), "XR24");
}

#[test]
fn the_formats_have_the_numbers_of_the_graphics_interface() {
    assert_eq!(VK_FORMAT_B8G8R8A8_UNORM, vk::Format::B8G8R8A8_UNORM.as_raw());
    assert_eq!(VK_FORMAT_B8G8R8A8_SRGB, vk::Format::B8G8R8A8_SRGB.as_raw());
    assert_eq!(VK_FORMAT_R8G8B8A8_UNORM, vk::Format::R8G8B8A8_UNORM.as_raw());
    assert_eq!(VK_FORMAT_R8G8B8A8_SRGB, vk::Format::R8G8B8A8_SRGB.as_raw());
}

// Importing and exporting.

fn descriptor(planes: usize) -> DmabufDescriptor<u8> {
    DmabufDescriptor {
        width_px: 4,
        height_px: 2,
        format: DrmFormat::xrgb8888(),
        modifier: DrmModifier::linear(),
        planes: (0..planes)
            .map(|n| DmabufPlane::new(n as u8, 8 * n as u64, 16))
            .collect(),
    }
}

#[test]
fn an_import_is_planned_plane_by_plane() {
    let plan = plan_import(true, &descriptor(2)).expect("can be imported");
    assert_eq!(plan.layouts.len(), 2);
    assert_eq!(plan.layouts[1].offset, 8);
    assert_eq!(plan.layouts[1].row_pitch, 16);
    assert_eq!(plan.layouts[1].size, 0);
    assert_eq!(plan.imported().plane_count, 2);
    assert_eq!(plan.format, vk::Format::B8G8R8A8_UNORM.as_raw());
}

#[test]
fn an_import_is_refused_for_its_first_fault() {
    assert_eq!(
        plan_import(false, &descriptor(0)).expect_err("no path").code(),
        ErrorCode::CapabilityUnavailable
    );
    assert_eq!(
        plan_import(true, &descriptor(0))
            .expect_err("no plane")
            .code(),
        ErrorCode::InvalidArgument
    );
    let mut flat = descriptor(1);
    flat.height_px = 0;
    assert_eq!(
        plan_import(true, &flat).expect_err("no extent").message(),
        "a dma_buf descriptor must have a non-zero extent"
    );
    let mut other = descriptor(1);
    other.format = DrmFormat::from_u32(fourcc(b'N', b'V', b'1', b'2'));
    let err = plan_import(true, &other).expect_err("no format");
    assert_eq!(err.code(), ErrorCode::Unsupported);
    assert_eq!(detail(&err, "fourcc"), text("NV12"));
}

#[test]
fn what_was_exported_can_be_imported() {
    let d = descriptor(1);
    let exported = ExportedDmabuf::of(d.width_px, d.height_px, d.format, d.modifier, d.planes);
    assert_eq!(exported.chosen_modifier, DrmModifier::linear());
    assert!(plan_import(true, &exported.descriptor).is_ok());
    assert!(check_export_path(true, true).is_ok());
    assert!(check_export_path(true, false).is_err());
    assert!(export_format(DrmFormat::argb8888()).is_ok());
}

#[test]
fn modifiers_are_kept_by_their_features_and_planes() {
    let offer = |value: u64, plane_count: u32, features: u32| ModifierOffer {
        modifier: DrmModifier::from_u64(value),
        plane_count,
        features,
    };
    let offers = [offer(1, 1, 0b11), offer(2, 2, 0b111), offer(3, 1, 0b01)];
    assert!(usable_modifiers(false, &offers, 0).is_err());
    let usable = usable_modifiers(true, &offers, 0b11).expect("extension there");
    assert_eq!(
        usable,
        vec![(DrmModifier::from_u64(1), 1), (DrmModifier::from_u64(2), 2)]
    );
    assert_eq!(
        measurement_modifiers(DrmFormat::xrgb8888(), &usable).expect("one of them"),
        vec![1]
    );
    let err = measurement_modifiers(DrmFormat::xrgb8888(), &usable[1..]).expect_err("none");
    assert_eq!(detail(&err, "fourcc"), text("XR24"));
    assert_eq!(
        export_plane_count(&usable, DrmModifier::from_u64(2)).expect("known"),
        2
    );
    assert_eq!(
        export_plane_count(&usable, DrmModifier::from_u64(9))
            .expect_err("unknown")
            .code(),
        ErrorCode::Internal
    );
    assert_eq!(
        export_plane_count(&[(DrmModifier::linear(), 5)], DrmModifier::linear())
            .expect_err("too many planes")
            .code(),
        ErrorCode::Unsupported
    );
}

// The ledger.

#[test]
fn a_fresh_ledger_claims_nothing() {
    let facts = RenderFacts::new();
    assert_eq!(facts.frames_submitted, 0);
    assert_eq!(facts.frames_with_surface, 0);
    assert_eq!(facts.dmabuf_draws, 0);
    assert_eq!(facts.shm_draws, 0);
}

#[test]
fn a_submit_with_no_surface_still_counts_the_black_clear() {
    let mut facts = RenderFacts::new();
    facts.record_submit(&[], 2);
    assert_eq!(facts.frames_submitted, 1);
    assert_eq!(facts.black_clears, 2);
    assert_eq!(facts.frames_with_surface, 0);
    assert_eq!(facts.surface_draws, 0);
}

#[test]
fn both_routes_are_counted_apart() {
    let mut facts = RenderFacts::new();
    facts.record_submit(&[TextureRoute::Dmabuf, TextureRoute::Shm], 2);
    assert_eq!(facts.frames_with_surface, 1);
    assert_eq!(facts.surface_draws, 4);
    assert_eq!(facts.dmabuf_draws, 2);
    assert_eq!(facts.shm_draws, 2);
}

#[test]
fn more_than_one_surface_is_representable() {
    let mut facts = RenderFacts::new();
    let routes = vec![TextureRoute::Shm; 7];
    facts.record_submit(&routes, 1);
    assert_eq!(facts.surface_draws, 7);
}

#[test]
fn the_ledger_json_carries_the_counts() {
    let mut facts = RenderFacts::new();
    facts.record_submit(&[TextureRoute::Dmabuf], 2);
    facts.swapchain_extent = Some((1280, 720));
    let rendered = facts.to_json().render();
    assert!(rendered.contains("\"frames_submitted\":1"), "{rendered}");
    assert!(rendered.contains("\"dmabuf_draws\":2"), "{rendered}");
    assert!(rendered.contains("\"swapchain_width\":1280"), "{rendered}");
}

#[test]
fn the_route_spellings_are_stable() {
    assert_eq!(TextureRoute::Dmabuf.as_str(), "dmabuf");
    assert_eq!(TextureRoute::Shm.as_str(), "shm");
}

#[test]
fn skipped_frames_and_swapchains_are_counted_too() {
    let mut facts = RenderFacts::new();
    facts.record_skip();
    facts.record_swapchain(3);
    facts.record_swapchain(4);
    assert_eq!(facts.frames_skipped, 1);
    assert_eq!(facts.frames_submitted, 0);
    assert_eq!(facts.swapchains_created, 2);
    assert_eq!(facts.swapchain_image_counts, vec![3, 4]);
}

// Calls to the device.

#[test]
fn what_was_handed_over_is_not_given_back() {
    let mut run = CallRun::of(Procedure::Wrap);
    run.answered(Ok(())).expect("granted");
    run.answered(Ok(())).expect("granted");
    run.hand_over();
    assert!(run.give_back().is_empty());
    assert_eq!(run.next_call(), None);
}

#[test]
fn a_refused_call_gives_back_what_came_before_it() {
    let mut run = CallRun::of(Procedure::Upload);
    assert_eq!(run.next_call(), Some(DeviceCall::CreateUploadedImage));
    for _ in 0..4 {
        run.answered(Ok(())).expect("granted");
    }
    assert_eq!(run.next_call(), Some(DeviceCall::CreateSampler));
    let raw = vk::Result::ERROR_OUT_OF_DEVICE_MEMORY.as_raw();
    let err = run.answered::<()>(Err(raw)).expect_err("refused");
    assert_eq!(err.message(), "vkCreateSampler failed");
    assert_eq!(
        run.give_back(),
        vec![DevicePart::View, DevicePart::Memory, DevicePart::Image]
    );
    assert!(run.give_back().is_empty());
    assert_eq!(run.next_call(), None);
}

#[test]
fn staged_pixels_give_the_buffer_back_before_its_memory() {
    let mut run = CallRun::of(Procedure::Stage);
    for _ in 0..3 {
        run.answered(Ok(())).expect("granted");
    }
    let mut refused = CallRun::of(Procedure::Stage);
    for _ in 0..3 {
        refused.answered(Ok(())).expect("granted");
    }
    assert_eq!(refused.next_call(), Some(DeviceCall::MapStaging));
    assert!(refused.answered::<()>(Err(-1)).is_err());
    assert_eq!(
        refused.give_back(),
        vec![DevicePart::Memory, DevicePart::Buffer]
    );
    run.answered(Ok(())).expect("granted");
    assert_eq!(
        run.give_back(),
        vec![DevicePart::Buffer, DevicePart::Memory]
    );
}

#[test]
fn a_renderer_is_taken_down_in_reverse() {
    let mut run = CallRun::of(Procedure::Renderer);
    while run.next_call().is_some() {
        run.answered(Ok(())).expect("granted");
    }
    assert_eq!(
        run.give_back(),
        vec![
            DevicePart::Fence,
            DevicePart::CommandPool,
            DevicePart::DescriptorPool,
            DevicePart::Pipeline,
            DevicePart::PipelineLayout,
            DevicePart::DescriptorLayout,
            DevicePart::RenderPass,
        ]
    );
}

#[test]
fn descriptors_are_asked_for_only_with_surfaces() {
    assert!(!draw_calls(0).contains(&DeviceCall::AllocateDescriptorSets));
    assert!(draw_calls(3).contains(&DeviceCall::AllocateDescriptorSets));
    let mut run = CallRun::over(draw_calls(0));
    assert_eq!(run.next_call(), Some(DeviceCall::WaitForFence));
    let err = run.answered::<()>(Err(-4)).expect_err("refused");
    assert_eq!(err.message(), "vkWaitForFences failed");
}

#[test]
fn a_refused_call_is_named_as_the_outside_crates_name_it() {
    let result = vk::Result::ERROR_DEVICE_LOST;
    let err = vulkan_failure("vkQueueSubmit failed", result.as_raw());
    assert_eq!(err.code(), ErrorCode::HostRefused);
    assert_eq!(
        detail(&err, "vk_result"),
        Some(DetailValue::Int(i64::from(result.as_raw())))
    );
    assert_eq!(detail(&err, "vk_result_name"), text(&format!("{result:?}")));

    let result = openxr::sys::Result::ERROR_FORM_FACTOR_UNAVAILABLE;
    let err = openxr_failure("xrGetSystem failed", result.into_raw());
    assert_eq!(detail(&err, "xr_result_name"), text(&format!("{result:?}")));
    assert_eq!(
        XrCall::System.refused(result.into_raw()).message(),
        "xrGetSystem failed"
    );
}

// The device.

#[test]
fn a_memory_type_is_the_first_that_fits() {
    let types = [0b001, 0b110, 0b111];
    assert_eq!(find_memory_type(&types, 0b111, 0b110).expect("fits"), 1);
    assert_eq!(find_memory_type(&types, 0b101, 0b110).expect("fits"), 2);
    assert_eq!(import_memory_type(&types, 0b110, 0b011).expect("fits"), 1);
    let err = find_memory_type(&types, 0b001, 0b110).expect_err("nothing fits");
    assert_eq!(err.code(), ErrorCode::Unsupported);
    assert_eq!(detail(&err, "allowed_bits"), Some(DetailValue::Int(1)));
    assert_eq!(detail(&err, "required_flags"), Some(DetailValue::Int(6)));
}

#[test]
fn a_device_that_shares_buffers_is_preferred() {
    let offer = |queue: Option<u32>, shares_buffers: bool, discrete: bool| DeviceOffer {
        graphics_queue: queue,
        shares_buffers,
        discrete,
    };
    assert_eq!(
        pick_physical_device(&[
            offer(Some(4), false, true),
            offer(Some(5), true, false),
            offer(None, true, true),
        ])
        .expect("one of them"),
        (1, 5)
    );
    assert!(pick_physical_device(&[]).is_err());
    assert_eq!(
        pick_graphics_queue(&[0, vk::QueueFlags::GRAPHICS.as_raw()]).expect("one of them"),
        1
    );
    assert!(pick_graphics_queue(&[2, 4]).is_err());
}

#[test]
fn the_extensions_of_sharing_are_all_or_nothing_for_the_facts() {
    let wanted = dmabuf_device_extensions();
    let mut advertised = wanted.clone();
    advertised.push("VK_other".to_owned());
    assert_eq!(present_dmabuf_extensions(&advertised), wanted);
    let facts = VulkanDeviceFacts::of(
        Some("Card".to_owned()),
        vk::make_api_version(0, 1, 3, 250),
        7,
        2,
        99,
        wanted.clone(),
    );
    assert!(facts.supports_dmabuf_import());
    assert_eq!(facts.api_version, "1.3.250");
    let rendered = facts.to_json().render();
    assert!(
        rendered.starts_with("{\"device_name\":\"Card\",\"api_version\":\"1.3.250\",\"driver_version\":7,"),
        "{rendered}"
    );
    let few = VulkanDeviceFacts::of(None, 0, 0, 0, 0, wanted[1..].to_vec());
    assert!(!few.supports_dmabuf_import());
    for name in &wanted {
        assert!(name.starts_with("VK_"), "{name}");
    }
}

#[test]
fn versions_are_read_as_the_graphics_interface_packs_them() {
    for version in [vk::make_api_version(0, 1, 1, 0), u32::MAX, 0] {
        assert_eq!(
            api_version_text(version),
            format!(
                "{}.{}.{}",
                vk::api_version_major(version),
                vk::api_version_minor(version),
                vk::api_version_patch(version)
            )
        );
    }
    let v = |major: u16, minor: u16, patch: u32| RuntimeVersion {
        major,
        minor,
        patch,
    };
    assert!(check_vulkan_1_1(v(1, 0, 0), v(1, 3, 0)).is_ok());
    assert!(check_vulkan_1_1(v(1, 1, 0), v(1, 0, 0)).is_ok());
    assert!(check_vulkan_1_1(v(1, 1, 1), v(2, 0, 0)).is_err());
    let err = check_vulkan_1_1(v(0, 0, 0), v(0, 9, 1)).expect_err("too old");
    assert_eq!(detail(&err, "max_api_version"), text("0.9.1"));
    assert!(check_c_name("schorl").is_ok());
    let err = check_c_name("a\0b").expect_err("a zero byte");
    assert_eq!(
        err.message(),
        "a name passed to Vulkan contained an interior NUL byte"
    );
    assert_eq!(
        err.source(),
        Some("nul byte found in provided data at position: 1")
    );
    assert_eq!(
        check_c_name("é\0\0").expect_err("a zero byte").source(),
        Some("nul byte found in provided data at position: 2")
    );
    assert_eq!(loader_missing("no library").source(), Some("no library"));
    assert_eq!(device_name(Some("x".to_owned())), "x");
}

// Drawing.

#[test]
fn a_view_clears_first_and_draws_every_surface_once() {
    let plan = plan_view(&[TextureRoute::Shm, TextureRoute::Dmabuf], 2).expect("few enough");
    assert_eq!(plan.routes, vec![TextureRoute::Shm, TextureRoute::Dmabuf]);
    assert_eq!(plan.commands[0], DrawCommand::BeginPass);
    assert_eq!(
        plan.commands[4..7],
        [
            DrawCommand::BindSurface { surface: 0 },
            DrawCommand::PushMatrix {
                surface: 0,
                bytes: 64
            },
            DrawCommand::DrawQuad {
                surface: 0,
                vertices: 4
            },
        ]
    );
    assert_eq!(plan.commands.len(), 11);
    assert_eq!(plan.commands[10], DrawCommand::EndPass);
    assert_eq!(plan_view(&[], 1).expect("none").commands.len(), 5);
    let err = plan_view(&[TextureRoute::Shm; 3], 2).expect_err("too many");
    assert_eq!(detail(&err, "submitted"), Some(DetailValue::Int(3)));
    assert!(check_surface_count(0, 0).is_ok());
    assert!(check_max_surfaces(0).is_err());
    assert!(check_max_surfaces(1).is_ok());
}

#[test]
fn programs_are_words_of_four_bytes() {
    assert_eq!(
        spirv_words(&[3, 2, 0x23, 7, 1, 0, 0, 0xff]).expect("whole words"),
        vec![0x0723_0203, 0xff00_0001]
    );
    assert_eq!(
        spirv_words(&[1, 2, 3]).expect_err("broken word").code(),
        ErrorCode::Internal
    );
}

#[test]
fn copies_know_their_sizes() {
    let frame = gradient_frame(at(0)).expect("frame");
    let region = staging_region(&frame);
    assert_eq!(
        (region.row_length, region.image_height, region.width, region.height),
        (64, 48, 64, 48)
    );
    assert_eq!(staging_size(&frame), 64 * 48 * 4);
    assert_eq!(
        read_back_size(vk::Format::R8G8B8A8_SRGB.as_raw(), 10, 3).expect("known"),
        120
    );
    assert!(read_back_size(vk::Format::R5G6B5_UNORM_PACK16.as_raw(), 1, 1).is_err());
    assert!(check_read_back_extent(1, 0).is_err());
    assert!(check_read_back_extent(1, 1).is_ok());
}

// Sessions.

#[test]
fn the_preferred_formats_put_bgra_first() {
    assert_eq!(
        PREFERRED_COLOR_FORMATS[0],
        vk::Format::B8G8R8A8_SRGB.as_raw()
    );
    assert!(PREFERRED_COLOR_FORMATS.contains(&vk::Format::B8G8R8A8_UNORM.as_raw()));
}

#[test]
fn the_runtime_only_carries_black() {
    let runtime = XrVulkanRuntime::new("schorl-render-test").expect("valid retry policy");
    assert_eq!(runtime.background(), Background::Black);
    assert_eq!(runtime.application_name(), "schorl-render-test");
}

#[test]
fn the_surface_cap_is_a_pool_size_not_a_spec_limit() {
    let runtime = XrVulkanRuntime::new("schorl-render-test")
        .expect("valid retry policy")
        .with_max_surfaces(97);
    assert_eq!(runtime.max_surfaces(), 97);
}

#[test]
fn the_ready_wait_stays_inside_the_pinned_retry_range() {
    let runtime = XrVulkanRuntime::new("schorl-render-test").expect("valid retry policy");
    assert!(runtime.ready_wait().max_retries() <= MAX_RETRIES_LIMIT);
    assert!(matches!(
        runtime.ready_wait().backoff(),
        Backoff::ExponentialJitter { .. }
    ));
}

#[test]
fn the_jitter_seed_stays_in_the_unit_interval() {
    for nanos in [0, 1, 999_999, 1_000_000, 999_999_999, u32::MAX] {
        let unit = f64::from(jitter_millionths(nanos)) / 1_000_000.0;
        assert!((0.0..1.0).contains(&unit), "got {unit}");
    }
}

#[test]
fn a_session_is_opened_only_on_what_it_needs() {
    assert_eq!(
        count_advertised("ExtensionSet { a: true, b: false, c: true, other: [] }"),
        2
    );
    let all = openxr::ExtensionSet::default();
    let written = format!("{all:?}");
    assert_eq!(count_advertised(&written), written.matches("true").count());
    let err = check_vulkan_enable2(false, 3).expect_err("missing");
    assert_eq!(
        detail(&err, "advertised_extension_count"),
        Some(DetailValue::Int(3))
    );
    assert!(check_vulkan_enable2(true, 0).is_ok());
    let opaque = openxr::EnvironmentBlendMode::OPAQUE.into_raw();
    assert!(check_opaque_background(&[2, opaque], &[]).is_ok());
    let err = check_opaque_background(&[2, 3], &["ADDITIVE".to_owned(), "ALPHA".to_owned()])
        .expect_err("no black");
    assert_eq!(detail(&err, "offered"), text("ADDITIVE,ALPHA"));
    assert!(check_view_configuration(0).is_err());
    assert!(check_view_configuration(2).is_ok());
    assert_eq!(choose_color_format(&[37, 44, 43]).expect("one of them"), 43);
    let err = choose_color_format(&[1, 2]).expect_err("none");
    assert_eq!(
        detail(&err, "advertised_swapchain_format_count"),
        Some(DetailValue::Int(2))
    );
    assert_eq!(
        choose_reference_space(true, true).expect("the room"),
        ReferenceSpace::Stage
    );
    assert_eq!(
        choose_reference_space(false, true).expect("the start").as_str(),
        "local"
    );
    assert!(choose_reference_space(false, false).is_err());
    assert!(check_background(Background::Black, Background::Black).is_ok());
    assert_eq!(
        xr_loader_missing("none").code(),
        ErrorCode::CapabilityUnavailable
    );
}

#[test]
fn an_opening_remembers_what_was_offered_and_chosen() {
    let mut opening = SessionOpening::begin("a: true, b: true", true)
        .expect("drawn through")
        .with_runtime("Monado", "24.0.0")
        .with_blend_modes(&[1, 2], vec!["OPAQUE".to_owned(), "ADDITIVE".to_owned()])
        .expect("black")
        .with_views(2, (1280, 720))
        .expect("two eyes")
        .with_formats(&[44, 50])
        .expect("a format")
        .with_spaces(false, true)
        .expect("a space");
    assert_eq!(opening.format(), 50);
    assert_eq!(opening.extent(), (1280, 720));
    assert_eq!(opening.space(), ReferenceSpace::Local);
    opening.note_swapchain(3);
    opening.note_swapchain(4);
    let device = VulkanDeviceFacts::of(None, 0, 0, 0, 0, Vec::new());
    let (facts, ledger) = opening.conclude(device);
    assert_eq!(facts.advertised_extension_count, 2);
    assert_eq!(facts.runtime_name, "Monado");
    assert_eq!(facts.chosen_blend_mode, "OPAQUE");
    assert_eq!(
        facts.chosen_blend_mode,
        format!("{:?}", openxr::EnvironmentBlendMode::OPAQUE)
    );
    assert_eq!(facts.offered_blend_modes.len(), 2);
    assert_eq!(facts.view_count, 2);
    assert_eq!(facts.chosen_swapchain_format, 50);
    assert_eq!(facts.reference_space, "local");
    assert_eq!(ledger.swapchains_created, 2);
    assert_eq!(ledger.swapchain_image_counts, vec![3, 4]);
    assert_eq!(ledger.swapchain_extent, Some((1280, 720)));
    assert_eq!(ledger.swapchain_format, Some(50));
}

#[test]
fn an_opening_ends_with_the_first_thing_that_is_missing() {
    let err = SessionOpening::begin("a: true", false).expect_err("not drawn through");
    assert_eq!(err.code(), ErrorCode::CapabilityUnavailable);
    let open = || SessionOpening::begin("", true).expect("drawn through");
    assert!(open().with_blend_modes(&[2], Vec::new()).is_err());
    assert!(open().with_views(0, (1, 1)).is_err());
    assert!(open().with_formats(&[]).is_err());
    assert!(open().with_spaces(false, false).is_err());
}

#[test]
fn a_trial_names_the_code_of_a_refusal_alone() {
    let err = DeviceCall::AllocateProbe.refused(-2);
    assert_eq!(err.message(), "vkAllocateMemory for the producer side failed");
    assert_eq!(err.details().len(), 1);
    assert_eq!(DeviceCall::AllocateProducer.refused(-2).details().len(), 2);
}

#[test]
fn a_session_runs_from_ready_to_stopping() {
    let mut tracker = SessionTracker::new();
    assert!(tracker.check_running().is_err());
    assert_eq!(tracker.session_state(false), SessionState::Idle);
    assert_eq!(
        tracker.observe(RuntimeState::Ready, "READY"),
        StateOrder::Begin
    );
    assert!(!tracker.is_running(), "it runs only once it began");
    tracker.began();
    assert!(tracker.check_running().is_ok());
    assert_eq!(tracker.session_state(false), SessionState::Running);
    assert_eq!(tracker.session_state(true), SessionState::Stopping);
    assert_eq!(
        tracker.observe(RuntimeState::Other, "FOCUSED"),
        StateOrder::Nothing
    );
    assert_eq!(
        tracker.observe(RuntimeState::LossPending, "LOSS_PENDING"),
        StateOrder::Exit
    );
    assert_eq!(
        tracker.observe(RuntimeState::Stopping, "STOPPING"),
        StateOrder::End
    );
    tracker.ended();
    assert!(!tracker.is_running());
    assert_eq!(
        tracker.observed_states(),
        ["READY", "FOCUSED", "LOSS_PENDING", "STOPPING"].map(str::to_owned)
    );
}

#[test]
fn a_session_is_closed_once() {
    let mut tracker = SessionTracker::new();
    tracker.began();
    assert_eq!(tracker.begin_close(), CloseStep::RequestExit);
    assert!(tracker.close_pumps_on(0, false));
    assert!(!tracker.close_pumps_on(0, true));
    assert!(!tracker.close_pumps_on(64, false));
    tracker.ended();
    assert!(!tracker.close_pumps_on(0, false));
    assert_eq!(tracker.begin_close(), CloseStep::Nothing);
    assert_eq!(SessionTracker::new().begin_close(), CloseStep::Release);
    let raw = |r: openxr::sys::Result| r.into_raw();
    assert!(exit_request_outcome(raw(openxr::sys::Result::ERROR_SESSION_NOT_RUNNING)).is_ok());
    assert!(forced_end_outcome(raw(openxr::sys::Result::ERROR_SESSION_NOT_STOPPING)).is_ok());
    assert_eq!(
        exit_request_outcome(raw(openxr::sys::Result::ERROR_SESSION_NOT_STOPPING))
            .expect_err("another fault")
            .message(),
        "xrRequestExitSession failed"
    );
    assert!(forced_end_outcome(-1).is_err());
}

#[test]
fn the_start_is_waited_for_five_times() {
    let runtime = XrVulkanRuntime::new("x").expect("valid retry policy");
    let mut wait = ReadyWait::new(runtime.ready_wait());
    let mut ceilings = Vec::new();
    while let ReadyStep::WaitUpTo { ceiling_millis } = wait.after_events(false, false) {
        ceilings.push(ceiling_millis);
    }
    assert_eq!(ceilings, vec![20, 40, 80, 160, 320]);
    let mut wait = ReadyWait::new(runtime.ready_wait());
    assert_eq!(wait.after_events(true, true), ReadyStep::GivenUp);
    assert_eq!(wait.after_events(false, true), ReadyStep::Running);
}

#[test]
fn a_frame_gives_every_image_back_before_it_ends() {
    assert_eq!(
        plan_frame(false, 2, true),
        vec![FrameStep::Begin, FrameStep::EndSkipped]
    );
    assert_eq!(
        plan_frame(true, 2, true),
        vec![
            FrameStep::Begin,
            FrameStep::Locate,
            FrameStep::Acquire { view: 0 },
            FrameStep::WaitImage { view: 0 },
            FrameStep::Draw { view: 0 },
            FrameStep::Capture { view: 0 },
            FrameStep::Release { view: 0 },
            FrameStep::Acquire { view: 1 },
            FrameStep::WaitImage { view: 1 },
            FrameStep::Draw { view: 1 },
            FrameStep::Release { view: 1 },
            FrameStep::End,
        ]
    );
    let err = check_view_count(3, 2).expect_err("one too many");
    assert_eq!(detail(&err, "located"), Some(DetailValue::Int(3)));
    assert!(check_view_count(2, 2).is_ok());
    assert_eq!(check_image_index(1, 2).expect("there"), 1);
    assert_eq!(
        detail(&check_image_index(2, 2).expect_err("none"), "image_index"),
        Some(DetailValue::Int(2))
    );
    assert_eq!(XrCall::EndFrame.answered(Ok(7)).expect("granted"), 7);
}

#[test]
fn the_facts_of_a_session_are_told_in_order() {
    let facts = XrVulkanFacts {
        runtime_name: "Monado".to_owned(),
        runtime_version: "24.0.0".to_owned(),
        advertised_extension_count: 3,
        vulkan_enable2_advertised: true,
        view_count: 2,
        offered_blend_modes: vec!["OPAQUE".to_owned()],
        chosen_blend_mode: "OPAQUE".to_owned(),
        advertised_swapchain_format_count: 4,
        chosen_swapchain_format: 50,
        reference_space: "stage".to_owned(),
        observed_states: Vec::new(),
        vulkan: VulkanDeviceFacts::of(Some("Card".to_owned()), 0, 0, 0, 0, Vec::new()),
    };
    assert_eq!(
        facts.to_json().render(),
        "{\"runtime_name\":\"Monado\",\"runtime_version\":\"24.0.0\",\"advertised_extension_count\":3,\"vulkan_enable2_advertised\":true,\"view_count\":2,\"offered_blend_modes\":[\"OPAQUE\"],\"chosen_blend_mode\":\"OPAQUE\",\"advertised_swapchain_format_count\":4,\"chosen_swapchain_format\":50,\"reference_space\":\"stage\",\"vulkan_device\":\"Card\",\"vulkan_dmabuf_extensions_present\":false}"
    );
}

// Probes.

#[test]
fn the_shared_picture_is_a_gradient() {
    let frame = gradient_frame(at(5)).expect("frame");
    assert!(!frame.is_real_capture());
    assert_eq!((frame.width_px(), frame.height_px()), (64, 48));
    let pixel = |x: usize, y: usize| frame.pixels()[(y * 64 + x) * 4..][..4].to_vec();
    assert_eq!(pixel(0, 0), [0, 0, 0, 255]);
    assert_eq!(pixel(63, 47), [252, 235, 74, 255]);
    assert_eq!(pixel(10, 20), [40, 100, 90, 255]);
}

#[test]
fn the_shown_picture_has_a_rim_and_fields() {
    let frame = tiled_frame(at(5), 128).expect("frame");
    assert_eq!(frame.stride_bytes(), 1024);
    let pixel = |x: usize, y: usize| frame.pixels()[(y * 256 + x) * 4..][..4].to_vec();
    assert_eq!(pixel(1, 70), [255, 255, 255, 255]);
    assert_eq!(pixel(254, 70), [255, 255, 255, 255]);
    assert_eq!(pixel(5, 5), [133, 40, 90, 255]);
    assert_eq!(pixel(20, 5), [20, 133, 30, 255]);
    assert_eq!(pixel(200, 130), [72, 40, 90, 255]);
}

#[test]
fn differing_pixels_are_counted_without_their_fourth_byte() {
    let a = [1, 2, 3, 4, 5, 6, 7, 8, 9];
    let b = [1, 2, 3, 9, 5, 6, 0, 8, 9];
    assert_eq!(count_mismatches(&a, &a), 0);
    assert_eq!(count_mismatches(&a, &b), 1);
    assert_eq!(count_mismatches(&a, &b[..4]), 9);
    assert_eq!(distinct_pixels(&[1, 2, 3, 4, 1, 2, 3, 5, 0, 2, 3, 4]), 2);
    assert_eq!(
        shift_one_channel(&[250, 1, 2, 3, 0, 9]),
        vec![11, 1, 2, 3, 0, 9]
    );
}

#[test]
fn a_comparison_is_tried_before_it_is_trusted() {
    let frame = gradient_frame(at(0)).expect("frame");
    let trial = Calibration::of(frame.pixels(), frame.pixels());
    assert_eq!(trial.mismatches_against_shifted, 64 * 48);
    assert!(trial.distinct_pixels_read_back > 1000);
    assert!(trial.check().is_ok());
    assert!(trial.to_json().render().contains("\"total_pixels\":3072"));
    let flat = vec![0u8; 64 * 48 * 4];
    let err = Calibration::of(frame.pixels(), &flat)
        .check()
        .expect_err("one colour");
    assert_eq!(
        detail(&err, "distinct_pixels_read_back"),
        Some(DetailValue::Int(1))
    );
    let blind = Calibration {
        distinct_pixels_read_back: 5,
        mismatches_against_shifted: 0,
    };
    assert!(blind.check().is_err());
    assert!(check_shared_pixels(frame.pixels(), frame.pixels()).is_ok());
    assert!(check_shared_pixels(frame.pixels(), &flat).is_err());
    assert!(check_copied_pixels(frame.pixels(), &flat).is_err());
    assert!(check_copied_pixels(&flat, &flat).is_ok());
    assert_eq!(
        sampled_json(&[1, 0, 0, 0], &[2, 1, 0, 1]).render(),
        "{\"bytes\":4,\"mismatching_pixels\":1,\"first_expected\":1,\"first_actual\":16777474}"
    );
}

#[test]
fn a_picture_that_was_handed_over_is_inspected() {
    let mut bytes = vec![0u8; 4 * 4 * 4];
    for (p, colour) in [(5usize, 10u8), (6, 20)] {
        bytes[4 * p] = colour;
    }
    let report = inspect_submitted_image(&bytes, 4, 4);
    assert_eq!(
        report,
        SubmittedImageReport {
            corner_is_black_count: 4,
            non_black_pixels: 2,
            total_pixels: 16,
            distinct_colours: 3
        }
    );
    assert!(report.check().is_ok());
    assert_eq!(
        report.to_json().render(),
        "{\"corner_is_black_count\":4,\"non_black_pixels\":2,\"total_pixels\":16,\"distinct_colours\":3}"
    );
    bytes[4 * 15 + 1] = 1;
    assert!(inspect_submitted_image(&bytes, 4, 4)
        .check()
        .expect_err("a corner")
        .message()
        .starts_with("the corners"));
    let black = vec![0u8; 64];
    assert!(inspect_submitted_image(&black, 4, 4)
        .check()
        .expect_err("black")
        .message()
        .contains("entirely black"));
    let mut dull = vec![0u8; 64];
    dull[20] = 1;
    assert!(inspect_submitted_image(&dull, 4, 4)
        .check()
        .expect_err("dull")
        .message()
        .contains("too few"));
    assert_eq!(inspect_submitted_image(&[], 0, 0).corner_is_black_count, 4);
}

#[test]
fn a_picture_file_holds_red_green_and_blue() {
    let file = ppm_bytes(&[1, 2, 3, 4, 5, 6, 7, 8], 2, 1);
    let mut wanted = b"P6\n2 1\n255\n".to_vec();
    wanted.extend([3, 2, 1, 7, 6, 5]);
    assert_eq!(file, wanted);
}

#[test]
fn what_the_probes_tell_is_json() {
    assert_eq!(
        modifiers_json(&[(DrmModifier::from_u64(0x0200_0000_0000_0001), 3)]).render(),
        "[{\"modifier\":144115188075855873,\"vendor\":2,\"plane_count\":3}]"
    );
    assert_eq!(
        exported_json(DrmModifier::linear(), 1, 256, 0, 9).render(),
        "{\"modifier\":0,\"vendor\":0,\"plane_count\":1,\"stride\":256,\"offset\":0,\"fd\":9}"
    );
    assert_eq!(
        surfaces_json(&[TextureRoute::Shm, TextureRoute::Dmabuf]).render(),
        "{\"count\":2,\"routes\":[\"shm\",\"dmabuf\"]}"
    );
    assert!(assert_route(TextureRoute::Shm, TextureRoute::Shm).is_ok());
    let err = assert_route(TextureRoute::Shm, TextureRoute::Dmabuf).expect_err("another");
    assert_eq!(detail(&err, "expected"), text("dmabuf"));
    assert_eq!(detail(&err, "actual"), text("shm"));
}

#[test]
fn a_probe_that_showed_nothing_fails() {
    assert!(wants_capture(89, false));
    assert!(!wants_capture(89, true));
    assert!(!wants_capture(88, false));
    assert!(check_shown(3, 1, false).is_ok());
    assert_eq!(
        detail(&check_shown(0, 0, true).expect_err("none"), "exiting"),
        Some(DetailValue::Bool(true))
    );
    assert_eq!(
        check_shown(3, 0, false).expect_err("none").code(),
        ErrorCode::Internal
    );
    assert_eq!(never_running().code(), ErrorCode::HostRefused);
}

// Programs.

#[test]
fn a_tool_is_looked_for_along_the_path() {
    assert_eq!(
        places_to_look("glslc", Some("/usr/bin::/opt/x/")),
        ["/usr/bin/glslc", "/opt/x/glslc"]
    );
    assert_eq!(places_to_look("./glslc", Some("/usr/bin")), ["./glslc"]);
    assert!(places_to_look("glslc", None).is_empty());
    assert_eq!(names_to_try(Some("mine"), &["a", "b"]), ["mine"]);
    assert!(names_to_try(Some(""), &["a", "b"]).is_empty());
    assert_eq!(names_to_try(None, &["a", "b"]), ["a", "b"]);
}

#[test]
fn compilers_are_asked_in_their_own_ways() {
    assert!(is_glslc("/usr/bin/glslc"));
    assert!(is_glslc("my-glslc.exe"));
    assert!(!is_glslc("/opt/glslc/bin/glslangValidator"));
    assert!(!is_glslc(""));
    assert_eq!(
        compiler_args("/usr/bin/glslc", "q.vert", "q.spv", "vertex"),
        ["-fshader-stage=vertex", "--target-env=vulkan1.0", "-o", "q.spv", "q.vert"]
    );
    assert_eq!(
        compiler_args("glslangValidator", "q.vert", "q.spv", "vertex"),
        ["-V", "--target-env", "vulkan1.0", "-o", "q.spv", "q.vert"]
    );
    assert_eq!(validator_args("q.spv"), ["--target-env", "vulkan1.0", "q.spv"]);
}

#[test]
fn a_turn_of_the_frame_loop_ends_or_shows_a_frame() {
    assert_eq!(probe_step(true, true, 0, false), ProbeStep::Exiting);
    assert_eq!(probe_step(true, false, 89, true), ProbeStep::Exiting);
    assert_eq!(probe_step(false, false, 89, false), ProbeStep::Stopped);
    assert_eq!(probe_step(false, true, 0, false), ProbeStep::Show { capture: false });
    assert_eq!(probe_step(false, true, 89, false), ProbeStep::Show { capture: true });
    assert_eq!(probe_step(false, true, 89, true), ProbeStep::Show { capture: false });
}

#[test]
fn a_measurement_takes_the_arrangements_of_one_plane_in_order() {
    let offered = [
        (DrmModifier::from_u64(9), 1),
        (DrmModifier::from_u64(8), 2),
        (DrmModifier::from_u64(7), 1),
    ];
    assert_eq!(probe_modifiers(&offered).expect("two of them"), [9, 7]);
    let err = probe_modifiers(&[]).expect_err("nothing is listed");
    assert_eq!(err.code(), ErrorCode::Unsupported);
    assert_eq!(
        err.message(),
        "the device advertises no sampleable DRM format modifier for this fourcc"
    );
    let err = probe_modifiers(&offered[1..2]).expect_err("none of a single plane");
    assert_eq!(err.code(), ErrorCode::Unsupported);
    assert_eq!(
        err.message(),
        "no single-plane DRM format modifier is available for this fourcc"
    );
}

#[test]
fn the_number_of_surfaces_is_taken_whole() {
    let beyond = 0x1_0000_0000u64 as usize;
    if beyond > 0 {
        let err = check_surface_count(beyond, 4).expect_err("too many");
        assert_eq!(err.code(), ErrorCode::InvalidArgument);
    }
    assert!(check_surface_count(4, 4).is_ok());
    assert!(check_surface_count(5, 4).is_err());
}

#[test]
fn the_shown_picture_takes_the_largest_phase() {
    let frame = tiled_frame(at(5), u32::MAX - 253).expect("frame");
    assert_eq!(frame.pixels().len(), 147456);
    // Column 253, row 16: an even field, whose blue is the place plus the phase.
    let blue = frame.pixels()[(16 * 256 + 253) * 4];
    assert_eq!(blue, 255);
}
