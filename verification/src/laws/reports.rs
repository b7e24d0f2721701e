//! What the written reports say: every number and text stands under its own name.

use vstd::prelude::*;

use crate::error::{DetailView, Error, ErrorEnvelope};
use crate::json::{JsonValue, JsonView};
use crate::render::dmabuf::DrmModifier;
use crate::render::facts::{RenderFacts, TextureRoute};
use crate::render::probe::{
    count_mismatches, exported_json, modifiers_json, sampled_json, surfaces_json, Calibration,
    SubmittedImageReport,
};
use crate::render::session::XrVulkanFacts;
use crate::render::vulkan::VulkanDeviceFacts;

verus! {

broadcast use vstd::seq::group_seq_axioms;

/// Whether a document is an object that says this under this name.
pub open spec fn reports(document: JsonView, name: Seq<char>, value: JsonView) -> bool {
    document is Object && document->Object_0.contains((name, value))
}

/// What is written of a session is what is known of it.
pub proof fn law_session_is_reported_as_known(facts: XrVulkanFacts, r: JsonValue)
    requires
        call_ensures(XrVulkanFacts::to_json, (&facts,), r),
    ensures
        reports(r@, "runtime_name"@, JsonView::Text(facts.runtime_name@)),
        reports(r@, "runtime_version"@, JsonView::Text(facts.runtime_version@)),
        reports(r@, "advertised_extension_count"@, JsonView::Int(facts.advertised_extension_count as i64 as int)),
        reports(r@, "vulkan_enable2_advertised"@, JsonView::Bool(facts.vulkan_enable2_advertised)),
        reports(r@, "view_count"@, JsonView::Int(facts.view_count as i64 as int)),
        reports(r@, "chosen_blend_mode"@, JsonView::Text(facts.chosen_blend_mode@)),
        reports(
            r@,
            "advertised_swapchain_format_count"@,
            JsonView::Int(facts.advertised_swapchain_format_count as i64 as int),
        ),
        reports(
            r@,
            "chosen_swapchain_format"@,
            JsonView::Int(facts.chosen_swapchain_format as int),
        ),
        reports(r@, "reference_space"@, JsonView::Text(facts.reference_space@)),
        reports(r@, "vulkan_device"@, JsonView::Text(facts.vulkan.device_name@)),
        reports(
            r@,
            "vulkan_dmabuf_extensions_present"@,
            JsonView::Bool(facts.vulkan.dmabuf_extensions_present),
        ),
        r@->Object_0.len() == 12,
        r@->Object_0[5].0 == "offered_blend_modes"@,
        r@->Object_0[5].1 is Array,
        r@->Object_0[5].1->Array_0.len() == facts.offered_blend_modes@.len(),
        forall|i: int|
            0 <= i < facts.offered_blend_modes@.len() ==> r@->Object_0[5].1->Array_0[i]
                == JsonView::Text((#[trigger] facts.offered_blend_modes@[i])@),
{
    let fields = r@->Object_0;
    assert(fields[0] == ("runtime_name"@, JsonView::Text(facts.runtime_name@)));
    assert(fields[1] == ("runtime_version"@, JsonView::Text(facts.runtime_version@)));
    assert(fields[2] == ("advertised_extension_count"@, JsonView::Int(facts.advertised_extension_count as i64 as int)));
    assert(fields[3] == ("vulkan_enable2_advertised"@, JsonView::Bool(facts.vulkan_enable2_advertised)));
    assert(fields[4] == ("view_count"@, JsonView::Int(facts.view_count as i64 as int)));
    assert(fields[6] == ("chosen_blend_mode"@, JsonView::Text(facts.chosen_blend_mode@)));
    assert(fields[7] == (
        "advertised_swapchain_format_count"@,
        JsonView::Int(facts.advertised_swapchain_format_count as i64 as int),
    ));
    assert(fields[8] == (
        "chosen_swapchain_format"@,
        JsonView::Int(facts.chosen_swapchain_format as int),
    ));
    assert(fields[9] == ("reference_space"@, JsonView::Text(facts.reference_space@)));
    assert(fields[10] == ("vulkan_device"@, JsonView::Text(facts.vulkan.device_name@)));
    assert(fields[11] == (
        "vulkan_dmabuf_extensions_present"@,
        JsonView::Bool(facts.vulkan.dmabuf_extensions_present),
    ));
}

/// What is written of a device is what is known of it.
pub proof fn law_device_is_reported_as_known(facts: VulkanDeviceFacts, r: JsonValue)
    requires
        call_ensures(VulkanDeviceFacts::to_json, (&facts,), r),
    ensures
        reports(r@, "device_name"@, JsonView::Text(facts.device_name@)),
        reports(r@, "api_version"@, JsonView::Text(facts.api_version@)),
        reports(r@, "driver_version"@, JsonView::Int(facts.driver_version as int)),
        reports(r@, "queue_family_index"@, JsonView::Int(facts.queue_family_index as int)),
        reports(r@, "advertised_device_extension_count"@, JsonView::Int(facts.advertised_device_extension_count as i64 as int)),
        reports(r@, "dmabuf_extensions_present"@, JsonView::Bool(facts.dmabuf_extensions_present)),
        r@->Object_0.len() == 7,
        r@->Object_0[6].0 == "enabled_device_extensions"@,
        r@->Object_0[6].1 is Array,
        r@->Object_0[6].1->Array_0.len() == facts.enabled_device_extensions@.len(),
        forall|i: int|
            0 <= i < facts.enabled_device_extensions@.len() ==> r@->Object_0[6].1->Array_0[i]
                == JsonView::Text((#[trigger] facts.enabled_device_extensions@[i])@),
{
    let fields = r@->Object_0;
    assert(fields[0] == ("device_name"@, JsonView::Text(facts.device_name@)));
    assert(fields[1] == ("api_version"@, JsonView::Text(facts.api_version@)));
    assert(fields[2] == ("driver_version"@, JsonView::Int(facts.driver_version as int)));
    assert(fields[3] == ("queue_family_index"@, JsonView::Int(facts.queue_family_index as int)));
    assert(fields[4] == ("advertised_device_extension_count"@, JsonView::Int(facts.advertised_device_extension_count as i64 as int)));
    assert(fields[5] == ("dmabuf_extensions_present"@, JsonView::Bool(facts.dmabuf_extensions_present)));
}

/// What is written of the drawing is what was counted. Extent and format are written once they
/// are known.
pub proof fn law_drawing_is_reported_as_counted(facts: RenderFacts, r: JsonValue)
    requires
        call_ensures(RenderFacts::to_json, (&facts,), r),
    ensures
        reports(r@, "frames_submitted"@, JsonView::Int(facts.frames_submitted as i64 as int)),
        reports(r@, "frames_skipped"@, JsonView::Int(facts.frames_skipped as i64 as int)),
        reports(r@, "frames_with_surface"@, JsonView::Int(facts.frames_with_surface as i64 as int)),
        reports(r@, "surface_draws"@, JsonView::Int(facts.surface_draws as i64 as int)),
        reports(r@, "dmabuf_draws"@, JsonView::Int(facts.dmabuf_draws as i64 as int)),
        reports(r@, "shm_draws"@, JsonView::Int(facts.shm_draws as i64 as int)),
        reports(r@, "black_clears"@, JsonView::Int(facts.black_clears as i64 as int)),
        reports(r@, "swapchains_created"@, JsonView::Int(facts.swapchains_created as i64 as int)),
        r@->Object_0[8].0 == "swapchain_image_counts"@,
        r@->Object_0[8].1 is Array,
        r@->Object_0[8].1->Array_0.len() == facts.swapchain_image_counts@.len(),
        forall|i: int|
            0 <= i < facts.swapchain_image_counts@.len() ==> r@->Object_0[8].1->Array_0[i]
                == JsonView::Int(#[trigger] facts.swapchain_image_counts@[i] as int),
        facts.swapchain_extent matches Some(extent) ==> {
            &&& reports(r@, "swapchain_width"@, JsonView::Int(extent.0 as int))
            &&& reports(r@, "swapchain_height"@, JsonView::Int(extent.1 as int))
        },
        facts.swapchain_format matches Some(format) ==> reports(
            r@,
            "swapchain_format"@,
            JsonView::Int(format as int),
        ),
        r@->Object_0.len() == 9 + (if facts.swapchain_extent is Some {
            2int
        } else {
            0
        }) + (if facts.swapchain_format is Some {
            1int
        } else {
            0
        }),
{
    let fields = r@->Object_0;
    assert(fields[0] == ("frames_submitted"@, JsonView::Int(facts.frames_submitted as i64 as int)));
    assert(fields[1] == ("frames_skipped"@, JsonView::Int(facts.frames_skipped as i64 as int)));
    assert(fields[2] == ("frames_with_surface"@, JsonView::Int(facts.frames_with_surface as i64 as int)));
    assert(fields[3] == ("surface_draws"@, JsonView::Int(facts.surface_draws as i64 as int)));
    assert(fields[4] == ("dmabuf_draws"@, JsonView::Int(facts.dmabuf_draws as i64 as int)));
    assert(fields[5] == ("shm_draws"@, JsonView::Int(facts.shm_draws as i64 as int)));
    assert(fields[6] == ("black_clears"@, JsonView::Int(facts.black_clears as i64 as int)));
    assert(fields[7] == ("swapchains_created"@, JsonView::Int(facts.swapchains_created as i64 as int)));
    if let Some(extent) = facts.swapchain_extent {
        assert(fields[9] == ("swapchain_width"@, JsonView::Int(extent.0 as int)));
        assert(fields[10] == ("swapchain_height"@, JsonView::Int(extent.1 as int)));
    }
    if let Some(format) = facts.swapchain_format {
        assert(fields.last() == ("swapchain_format"@, JsonView::Int(format as int)));
        assert(fields[fields.len() - 1] == ("swapchain_format"@, JsonView::Int(format as int)));
    }
}

/// What is written of a picture is what was seen in it.
pub proof fn law_picture_is_reported_as_seen(facts: SubmittedImageReport, r: JsonValue)
    requires
        call_ensures(SubmittedImageReport::to_json, (&facts,), r),
    ensures
        reports(r@, "corner_is_black_count"@, JsonView::Int(facts.corner_is_black_count as i64 as int)),
        reports(r@, "non_black_pixels"@, JsonView::Int(facts.non_black_pixels as i64 as int)),
        reports(r@, "total_pixels"@, JsonView::Int(facts.total_pixels as i64 as int)),
        reports(r@, "distinct_colours"@, JsonView::Int(facts.distinct_colours as i64 as int)),
        r@->Object_0.len() == 4,
{
    let fields = r@->Object_0;
    assert(fields[0] == ("corner_is_black_count"@, JsonView::Int(facts.corner_is_black_count as i64 as int)));
    assert(fields[1] == ("non_black_pixels"@, JsonView::Int(facts.non_black_pixels as i64 as int)));
    assert(fields[2] == ("total_pixels"@, JsonView::Int(facts.total_pixels as i64 as int)));
    assert(fields[3] == ("distinct_colours"@, JsonView::Int(facts.distinct_colours as i64 as int)));
}

/// What is written of a trial is what came of it, and how many pixels the picture has.
pub proof fn law_trial_is_reported_as_it_went(facts: Calibration, r: JsonValue)
    requires
        call_ensures(Calibration::to_json, (&facts,), r),
    ensures
        reports(r@, "distinct_pixels_read_back"@, JsonView::Int(facts.distinct_pixels_read_back as i64 as int)),
        reports(r@, "total_pixels"@, JsonView::Int(3072)),
        reports(r@, "mismatches_against_shifted"@, JsonView::Int(facts.mismatches_against_shifted as i64 as int)),
        r@->Object_0.len() == 3,
{
    let fields = r@->Object_0;
    assert(fields[0] == ("distinct_pixels_read_back"@, JsonView::Int(facts.distinct_pixels_read_back as i64 as int)));
    assert(fields[1] == ("total_pixels"@, JsonView::Int(3072)));
    assert(fields[2] == ("mismatches_against_shifted"@, JsonView::Int(facts.mismatches_against_shifted as i64 as int)));
}

/// What is written of a comparison is how many bytes came back, how many pixels differ, and the
/// first pixel of either picture, its lowest byte first.
pub proof fn law_comparison_is_reported(
    expected: &[u8],
    actual: &[u8],
    r: JsonValue,
    differing: usize,
)
    requires
        expected@.len() >= 4,
        actual@.len() >= 4,
        call_ensures(sampled_json, (expected, actual), r),
        call_ensures(count_mismatches, (expected, actual), differing),
    ensures
        reports(r@, "bytes"@, JsonView::Int(actual@.len() as usize as i64 as int)),
        reports(r@, "mismatching_pixels"@, JsonView::Int(differing as i64 as int)),
        reports(
            r@,
            "first_expected"@,
            JsonView::Int(
                expected@[0] + 0x100 * expected@[1] + 0x1_0000 * expected@[2] + 0x100_0000
                    * expected@[3],
            ),
        ),
        reports(
            r@,
            "first_actual"@,
            JsonView::Int(
                actual@[0] + 0x100 * actual@[1] + 0x1_0000 * actual@[2] + 0x100_0000 * actual@[3],
            ),
        ),
        r@->Object_0.len() == 4,
{
    let fields = r@->Object_0;
    assert(fields[0] == ("bytes"@, JsonView::Int(actual@.len() as usize as i64 as int)));
    assert(fields[1] == ("mismatching_pixels"@, JsonView::Int(differing as i64 as int)));
    assert(fields[2] == ("first_expected"@, fields[2].1));
    assert(fields[3] == ("first_actual"@, fields[3].1));
}

/// What is written of a buffer that was handed out is its arrangement, the highest byte of
/// that, its planes, its stride, its offset and its descriptor.
pub proof fn law_export_is_reported(
    modifier: DrmModifier,
    plane_count: usize,
    stride: u64,
    offset: u64,
    fd: i32,
    r: JsonValue,
)
    requires
        call_ensures(exported_json, (modifier, plane_count, stride, offset, fd), r),
    ensures
        reports(r@, "modifier"@, JsonView::Int(modifier.value() as i64 as int)),
        reports(r@, "vendor"@, JsonView::Int(modifier.value() as int / 0x100_0000_0000_0000)),
        reports(r@, "plane_count"@, JsonView::Int(plane_count as i64 as int)),
        reports(r@, "stride"@, JsonView::Int(stride as i64 as int)),
        reports(r@, "offset"@, JsonView::Int(offset as i64 as int)),
        reports(r@, "fd"@, JsonView::Int(fd as int)),
        r@->Object_0.len() == 6,
{
    let fields = r@->Object_0;
    assert(fields[0].0 == "modifier"@ && fields[0] == (fields[0].0, fields[0].1));
    assert(fields[1].0 == "vendor"@ && fields[1] == (fields[1].0, fields[1].1));
    assert(fields[2].0 == "plane_count"@ && fields[2] == (fields[2].0, fields[2].1));
    assert(fields[3].0 == "stride"@ && fields[3] == (fields[3].0, fields[3].1));
    assert(fields[4].0 == "offset"@ && fields[4] == (fields[4].0, fields[4].1));
    assert(fields[5].0 == "fd"@ && fields[5] == (fields[5].0, fields[5].1));
}

/// What is written of the arrangements is each of them, in order: its number, the highest byte
/// of that, and its planes.
pub proof fn law_arrangements_are_reported(
    modifiers: &[(DrmModifier, u32)],
    r: JsonValue,
    i: int,
)
    requires
        call_ensures(modifiers_json, (modifiers,), r),
        0 <= i < modifiers@.len(),
    ensures
        r@ is Array,
        r@->Array_0.len() == modifiers@.len(),
        ({
            let entry = r@->Array_0[i];
            let number = modifiers@[i].0.value();
            &&& reports(entry, "modifier"@, JsonView::Int(number as i64 as int))
            &&& reports(entry, "vendor"@, JsonView::Int(number as int / 0x100_0000_0000_0000))
            &&& reports(entry, "plane_count"@, JsonView::Int(modifiers@[i].1 as int))
            &&& entry->Object_0.len() == 3
        }),
{
    let fields = r@->Array_0[i]->Object_0;
    assert(fields[0].0 == "modifier"@ && fields[0] == (fields[0].0, fields[0].1));
    assert(fields[1].0 == "vendor"@ && fields[1] == (fields[1].0, fields[1].1));
    assert(fields[2].0 == "plane_count"@ && fields[2] == (fields[2].0, fields[2].1));
}

/// What is written of the surfaces is how many there are, and by which route each came, in
/// order.
pub proof fn law_surfaces_are_reported(routes: &[TextureRoute], r: JsonValue, i: int)
    requires
        call_ensures(surfaces_json, (routes,), r),
        0 <= i < routes@.len(),
    ensures
        reports(r@, "count"@, JsonView::Int(routes@.len() as usize as i64 as int)),
        r@->Object_0.len() == 2,
        r@->Object_0[1].0 == "routes"@,
        r@->Object_0[1].1 is Array,
        r@->Object_0[1].1->Array_0.len() == routes@.len(),
        routes@[i] == TextureRoute::Dmabuf ==> r@->Object_0[1].1->Array_0[i] == JsonView::Text(
            "dmabuf"@,
        ),
        routes@[i] == TextureRoute::Shm ==> r@->Object_0[1].1->Array_0[i] == JsonView::Text("shm"@),
{
    let fields = r@->Object_0;
    assert(fields[0] == ("count"@, JsonView::Int(routes@.len() as usize as i64 as int)));
}

/// What is written of an error is its code by name, its message, its details, each by its own
/// name and in order, and, in the envelope alone, its trace. What caused it is not written.
pub proof fn law_error_is_reported(
    error: Error,
    envelope: ErrorEnvelope<'_>,
    r: JsonValue,
    body: JsonValue,
    i: int,
)
    requires
        call_ensures(Error::envelope, (&error,), envelope),
        call_ensures(ErrorEnvelope::to_json, (&envelope,), r),
        call_ensures(ErrorEnvelope::to_body_json, (&envelope,), body),
    ensures
        reports(r@, "code"@, JsonView::Text(error@.code.name())),
        reports(r@, "message"@, JsonView::Text(error@.message)),
        error@.trace_id is None ==> reports(r@, "trace_id"@, JsonView::Null),
        error@.trace_id matches Some(id) ==> reports(r@, "trace_id"@, JsonView::Text(id.text)),
        r@->Object_0.len() == 4,
        body@ is Object,
        body@->Object_0 == r@->Object_0.take(3),
        r@->Object_0[2].0 == "details"@,
        r@->Object_0[2].1 is Object,
        ({
            let details = r@->Object_0[2].1->Object_0;
            &&& details.len() == error@.details.len()
            &&& 0 <= i < details.len() ==> details[i].0 == error@.details[i].0 && match error@.details[i].1 {
                DetailView::Text(text) => details[i].1 == JsonView::Text(text),
                DetailView::Int(number) => details[i].1 == JsonView::Int(number),
                DetailView::Bool(truth) => details[i].1 == JsonView::Bool(truth),
            }
        }),
{
    let fields = r@->Object_0;
    assert(fields[0] == ("code"@, JsonView::Text(error@.code.name())));
    assert(fields[1] == ("message"@, JsonView::Text(error@.message)));
    assert(fields[3].0 == "trace_id"@ && fields[3] == (fields[3].0, fields[3].1));
    assert(body@->Object_0 =~= fields.take(3));
}

} // verus!
