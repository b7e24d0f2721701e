//! A session that draws: what it needs of the runtime, when it runs, when it ends, and what
//! is known of it.

use vstd::prelude::*;

use crate::error::{plain_error, DetailView, Error, ErrorCode, ErrorView};
use crate::id::TraceId;
use crate::json::{JsonFields, JsonValue, JsonView};
use crate::render::dmabuf::{
    VK_FORMAT_B8G8R8A8_SRGB, VK_FORMAT_B8G8R8A8_UNORM, VK_FORMAT_R8G8B8A8_SRGB,
    VK_FORMAT_R8G8B8A8_UNORM,
};
use crate::render::facts::RenderFacts;
use crate::render::renderer::DEFAULT_MAX_SURFACES_PER_FRAME;
use crate::render::vulkan::{
    openxr_failure, refusal, text_array, text_values, xr_result_name, VulkanDeviceFacts,
};
use crate::retry::{Backoff, RetryPolicy};
use crate::scan::{stands_at, stands_here};
use crate::scope::Background;
use crate::testing::texts;
use crate::text::chars_of;
use crate::xr::SessionState;

pub mod laws;

verus! {

/// The colour formats that a session takes, the best first: the order of bytes that shared
/// buffers have comes before the other, and the curve of a screen before the line.
pub const PREFERRED_COLOR_FORMATS: [i32; 4] = [50, 43, 44, 37];

/// The runtime's number for a background that lets nothing through.
pub const BLEND_MODE_OPAQUE: i32 = 1;

/// The runtime's code for a session that does not run.
pub const XR_ERROR_SESSION_NOT_RUNNING: i32 = -16;

/// The runtime's code for a session that does not stop.
pub const XR_ERROR_SESSION_NOT_STOPPING: i32 = -29;

/// How often the runtime is asked for events while a session closes.
pub const CLOSE_PUMP_ROUNDS: u32 = 64;

/// What is known of a session that was opened.
#[derive(Debug)]
pub struct XrVulkanFacts {
    pub runtime_name: String,
    pub runtime_version: String,
    pub advertised_extension_count: usize,
    pub vulkan_enable2_advertised: bool,
    pub view_count: usize,
    pub offered_blend_modes: Vec<String>,
    pub chosen_blend_mode: String,
    pub advertised_swapchain_format_count: usize,
    pub chosen_swapchain_format: u32,
    pub reference_space: String,
    pub observed_states: Vec<String>,
    pub vulkan: VulkanDeviceFacts,
}

impl XrVulkanFacts {
    /// The fields of [`XrVulkanFacts::to_json`].
    pub open spec fn fields(self) -> Seq<(Seq<char>, JsonView)> {
        seq![
            ("runtime_name"@, JsonView::Text(self.runtime_name@)),
            ("runtime_version"@, JsonView::Text(self.runtime_version@)),
            (
                "advertised_extension_count"@,
                JsonView::Int(self.advertised_extension_count as i64 as int),
            ),
            ("vulkan_enable2_advertised"@, JsonView::Bool(self.vulkan_enable2_advertised)),
            ("view_count"@, JsonView::Int(self.view_count as i64 as int)),
            (
                "offered_blend_modes"@,
                JsonView::Array(text_values(texts(self.offered_blend_modes@))),
            ),
            ("chosen_blend_mode"@, JsonView::Text(self.chosen_blend_mode@)),
            (
                "advertised_swapchain_format_count"@,
                JsonView::Int(self.advertised_swapchain_format_count as i64 as int),
            ),
            ("chosen_swapchain_format"@, JsonView::Int(self.chosen_swapchain_format as int)),
            ("reference_space"@, JsonView::Text(self.reference_space@)),
            ("vulkan_device"@, JsonView::Text(self.vulkan.device_name@)),
            (
                "vulkan_dmabuf_extensions_present"@,
                JsonView::Bool(self.vulkan.dmabuf_extensions_present),
            ),
        ]
    }

    /// What is known of the session, as JSON. The states that it went through are told apart.
    pub fn to_json(&self) -> (r: JsonValue)
        ensures
            r@ == JsonView::Object(self.fields()),
    {
        let fields = JsonFields::new().with(
            "runtime_name",
            JsonValue::text(self.runtime_name.as_str()),
        ).with("runtime_version", JsonValue::text(self.runtime_version.as_str())).with(
            "advertised_extension_count",
            JsonValue::number(self.advertised_extension_count as i64),
        ).with("vulkan_enable2_advertised", JsonValue::boolean(self.vulkan_enable2_advertised)).with(
            "view_count",
            JsonValue::number(self.view_count as i64),
        ).with("offered_blend_modes", text_array(self.offered_blend_modes.as_slice())).with(
            "chosen_blend_mode",
            JsonValue::text(self.chosen_blend_mode.as_str()),
        ).with(
            "advertised_swapchain_format_count",
            JsonValue::number(self.advertised_swapchain_format_count as i64),
        ).with(
            "chosen_swapchain_format",
            JsonValue::number(self.chosen_swapchain_format as i64),
        ).with("reference_space", JsonValue::text(self.reference_space.as_str())).with(
            "vulkan_device",
            JsonValue::text(self.vulkan.device_name.as_str()),
        ).with(
            "vulkan_dmabuf_extensions_present",
            JsonValue::boolean(self.vulkan.dmabuf_extensions_present),
        );
        assert(fields@ =~= self.fields());
        fields.into_object()
    }
}

/// How a session is opened.
#[derive(Debug)]
pub struct XrVulkanRuntime {
    application_name: String,
    background: Background,
    max_surfaces: u32,
    ready_wait: RetryPolicy,
}

impl XrVulkanRuntime {
    /// The name that the session is opened under.
    pub closed spec fn name(&self) -> Seq<char> {
        self.application_name@
    }

    /// How many surfaces are drawn in one frame.
    pub closed spec fn surfaces(&self) -> u32 {
        self.max_surfaces
    }

    /// How the start of the session is waited for.
    pub closed spec fn wait(&self) -> RetryPolicy {
        self.ready_wait
    }

    /// The usual way: on black, with the default number of surfaces, and five retries for
    /// the start. It never fails, since five retries are allowed.
    pub fn new(application_name: &str) -> (r: Result<Self, Error>)
        ensures
            r is Ok,
            r->Ok_0.name() == application_name@,
            r->Ok_0.surfaces() == DEFAULT_MAX_SURFACES_PER_FRAME,
            r->Ok_0.wait().retries() == 5,
            r->Ok_0.wait().wait() == (Backoff::ExponentialJitter {
                base_millis: 20,
                cap_millis: 400,
            }),
    {
        match RetryPolicy::new(
            5,
            Backoff::ExponentialJitter { base_millis: 20, cap_millis: 400 },
        ) {
            Ok(ready_wait) => Ok(
                XrVulkanRuntime {
                    application_name: application_name.to_owned(),
                    background: Background::Black,
                    max_surfaces: DEFAULT_MAX_SURFACES_PER_FRAME,
                    ready_wait,
                },
            ),
            Err(e) => Err(e),
        }
    }

    /// The same, with another number of surfaces. There is no limit to it.
    pub fn with_max_surfaces(self, max_surfaces: u32) -> (r: Self)
        ensures
            r.name() == self.name(),
            r.surfaces() == max_surfaces,
            r.wait() == self.wait(),
    {
        XrVulkanRuntime {
            application_name: self.application_name,
            background: self.background,
            max_surfaces,
            ready_wait: self.ready_wait,
        }
    }

    /// The name that the session is opened under.
    pub fn application_name(&self) -> (r: &str)
        ensures
            r@ == self.name(),
    {
        self.application_name.as_str()
    }

    /// The background: black.
    pub fn background(&self) -> (r: Background)
        ensures
            r == Background::Black,
    {
        self.background
    }

    /// How many surfaces are drawn in one frame.
    pub fn max_surfaces(&self) -> (r: u32)
        ensures
            r == self.surfaces(),
    {
        self.max_surfaces
    }

    /// How the start of the session is waited for.
    pub fn ready_wait(&self) -> (r: RetryPolicy)
        ensures
            r == self.wait(),
    {
        self.ready_wait
    }
}

/// The error of a runtime that is not there.
pub fn xr_loader_missing(cause: &str) -> (r: Error)
    ensures
        r@ == plain_error(
            ErrorCode::CapabilityUnavailable,
            "the OpenXR loader could not be opened at run time"@,
        ).because(cause@),
{
    Error::new(
        ErrorCode::CapabilityUnavailable,
        "the OpenXR loader could not be opened at run time",
        TraceId::unattributed(),
    ).caused_by(cause)
}

/// How often `true` stands before position `end`.
pub open spec fn trues_before(s: Seq<char>, end: int) -> nat
    decreases end,
{
    if end <= 0 {
        0
    } else {
        trues_before(s, end - 1) + if stands_at(s, "true"@, end - 1) {
            1nat
        } else {
            0nat
        }
    }
}

/// How many extensions a runtime has, by how its set of them is written out: one `true` for
/// each.
pub fn count_advertised(written: &str) -> (r: usize)
    ensures
        r == trues_before(written@, written@.len() as int),
{
    let text = chars_of(written);
    let word = chars_of("true");
    let mut count: usize = 0;
    let mut i: usize = 0;
    while i < text.len()
        invariant
            i <= text.len(),
            text@ == written@,
            word@ == "true"@,
            count <= i,
            count == trues_before(written@, i as int),
        decreases text.len() - i,
    {
        if text.len() - i >= word.len() && stands_here(&text, &word, i) {
            count = count + 1;
        }
        i = i + 1;
    }
    count
}

/// The error of a runtime that does not draw through this graphics interface.
pub open spec fn no_enable2_error(extension_count: usize) -> ErrorView {
    plain_error(
        ErrorCode::CapabilityUnavailable,
        "the active OpenXR runtime does not advertise XR_KHR_vulkan_enable2"@,
    ).with("advertised_extension_count"@, DetailView::Int(extension_count as i64 as int))
}

/// Whether the runtime draws through this graphics interface.
pub fn check_vulkan_enable2(advertised: bool, extension_count: usize) -> (r: Result<(), Error>)
    ensures
        r is Ok <==> advertised,
        r matches Err(e) ==> e@ == no_enable2_error(extension_count),
{
    if advertised {
        return Ok(());
    }
    Err(
        Error::new(
            ErrorCode::CapabilityUnavailable,
            "the active OpenXR runtime does not advertise XR_KHR_vulkan_enable2",
            TraceId::unattributed(),
        ).with_detail("advertised_extension_count", extension_count as i64),
    )
}

/// The texts with commas between them.
pub open spec fn comma_joined(items: Seq<Seq<char>>) -> Seq<char>
    decreases items.len(),
{
    if items.len() == 0 {
        Seq::empty()
    } else if items.len() == 1 {
        items[0]
    } else {
        comma_joined(items.drop_last()) + ","@ + items.last()
    }
}

fn join_with_commas(items: &[String]) -> (r: String)
    ensures
        r@ == comma_joined(texts(items@)),
{
    let ghost all = texts(items@);
    let mut out = String::new();
    let mut i: usize = 0;
    assert(all.take(0) =~= Seq::<Seq<char>>::empty());
    while i < items.len()
        invariant
            i <= items.len(),
            all == texts(items@),
            out@ == comma_joined(all.take(i as int)),
        decreases items.len() - i,
    {
        let ghost done = all.take(i as int + 1);
        assert(done.drop_last() =~= all.take(i as int));
        assert(done.last() == items@[i as int]@);
        if i > 0 {
            out.append(",");
        }
        out.append(items[i].as_str());
        assert(out@ =~= comma_joined(done));
        i = i + 1;
    }
    assert(all.take(i as int) =~= all);
    out
}

/// The error of a runtime whose backgrounds all let something through.
pub open spec fn not_opaque_error(offered: Seq<Seq<char>>) -> ErrorView {
    plain_error(
        ErrorCode::Unsupported,
        "the runtime offers no OPAQUE environment blend mode, so the black background cannot be owned by schorl"@,
    ).with("offered"@, DetailView::Text(comma_joined(offered)))
}

/// Whether the runtime can show a background that lets nothing through. Without it the
/// black would not be schorl's own, and no other way to blend is taken instead.
pub fn check_opaque_background(offered: &[i32], names: &[String]) -> (r: Result<(), Error>)
    ensures
        r is Ok <==> offered@.contains(BLEND_MODE_OPAQUE),
        r matches Err(e) ==> e@ == not_opaque_error(texts(names@)),
{
    let mut i: usize = 0;
    while i < offered.len()
        invariant
            i <= offered.len(),
            forall|j: int| 0 <= j < i ==> offered@[j] != BLEND_MODE_OPAQUE,
        decreases offered.len() - i,
    {
        if offered[i] == BLEND_MODE_OPAQUE {
            assert(offered@[i as int] == BLEND_MODE_OPAQUE);
            return Ok(());
        }
        i = i + 1;
    }
    Err(
        Error::new(
            ErrorCode::Unsupported,
            "the runtime offers no OPAQUE environment blend mode, so the black background cannot be owned by schorl",
            TraceId::unattributed(),
        ).with_detail("offered", join_with_commas(names)),
    )
}

/// Whether there is anything to look through.
pub fn check_view_configuration(view_count: usize) -> (r: Result<(), Error>)
    ensures
        r is Ok <==> view_count > 0,
        r matches Err(e) ==> e@ == plain_error(
            ErrorCode::Unsupported,
            "the runtime enumerated no views for the primary stereo configuration"@,
        ),
{
    if view_count == 0 {
        return Err(
            Error::new(
                ErrorCode::Unsupported,
                "the runtime enumerated no views for the primary stereo configuration",
                TraceId::unattributed(),
            ),
        );
    }
    Ok(())
}

fn offers_format(formats: &[u32], wanted: u32) -> (r: bool)
    ensures
        r == formats@.contains(wanted),
{
    let mut i: usize = 0;
    while i < formats.len()
        invariant
            i <= formats.len(),
            forall|j: int| 0 <= j < i ==> formats@[j] != wanted,
        decreases formats.len() - i,
    {
        if formats[i] == wanted {
            assert(formats@[i as int] == wanted);
            return true;
        }
        i = i + 1;
    }
    false
}

/// The best colour format that the runtime offers.
pub open spec fn best_format(formats: Seq<u32>) -> Option<u32> {
    if formats.contains(50u32) {
        Some(50u32)
    } else if formats.contains(43u32) {
        Some(43u32)
    } else if formats.contains(44u32) {
        Some(44u32)
    } else if formats.contains(37u32) {
        Some(37u32)
    } else {
        None
    }
}

/// The numbers by which the best format is chosen are those of the preferred formats, in
/// order.
pub proof fn law_best_format_follows_the_preference()
    ensures
        PREFERRED_COLOR_FORMATS@ == seq![
            VK_FORMAT_B8G8R8A8_SRGB,
            VK_FORMAT_R8G8B8A8_SRGB,
            VK_FORMAT_B8G8R8A8_UNORM,
            VK_FORMAT_R8G8B8A8_UNORM,
        ],
        PREFERRED_COLOR_FORMATS@ == seq![50i32, 43i32, 44i32, 37i32],
{
    assert(PREFERRED_COLOR_FORMATS@ =~= seq![50i32, 43i32, 44i32, 37i32]);
}

/// The error of a runtime that offers no colour format that can be drawn.
pub open spec fn no_format_offered(format_count: usize) -> ErrorView {
    plain_error(
        ErrorCode::Unsupported,
        "the runtime offers none of the colour formats this renderer can use"@,
    ).with("advertised_swapchain_format_count"@, DetailView::Int(format_count as i64 as int))
}

/// The best colour format that the runtime offers, or that it offers none.
pub fn choose_color_format(formats: &[u32]) -> (r: Result<u32, Error>)
    ensures
        match best_format(formats@) {
            Some(f) => r == Ok::<u32, Error>(f),
            None => r is Err && r->Err_0@ == no_format_offered(formats@.len() as usize),
        },
{
    let preferred = PREFERRED_COLOR_FORMATS;
    let mut i: usize = 0;
    while i < 4
        invariant
            i <= 4,
            preferred@ == seq![50i32, 43i32, 44i32, 37i32],
            i > 0 ==> !formats@.contains(50u32),
            i > 1 ==> !formats@.contains(43u32),
            i > 2 ==> !formats@.contains(44u32),
            i > 3 ==> !formats@.contains(37u32),
        decreases 4 - i,
    {
        let wanted: u32 = preferred[i] as u32;
        if offers_format(formats, wanted) {
            return Ok(wanted);
        }
        i = i + 1;
    }
    Err(
        Error::new(
            ErrorCode::Unsupported,
            "the runtime offers none of the colour formats this renderer can use",
            TraceId::unattributed(),
        ).with_detail("advertised_swapchain_format_count", formats.len() as i64),
    )
}

/// What poses are relative to: the room, or where the session began. Both stand still in the
/// world.
#[derive(Debug, Clone, Copy, PartialEq, Eq, Structural)]
pub enum ReferenceSpace {
    Stage,
    Local,
}

impl ReferenceSpace {
    /// The spelling of the space.
    pub open spec fn name(self) -> Seq<char> {
        match self {
            ReferenceSpace::Stage => "stage"@,
            ReferenceSpace::Local => "local"@,
        }
    }

    /// The spelling of the space.
    pub fn as_str(self) -> (r: &'static str)
        ensures
            r@ == self.name(),
    {
        match self {
            ReferenceSpace::Stage => "stage",
            ReferenceSpace::Local => "local",
        }
    }
}

/// The space that poses are relative to: the room where the runtime knows it.
pub fn choose_reference_space(has_stage: bool, has_local: bool) -> (r: Result<
    ReferenceSpace,
    Error,
>)
    ensures
        r is Ok <==> has_stage || has_local,
        r matches Ok(s) ==> s == (if has_stage {
            ReferenceSpace::Stage
        } else {
            ReferenceSpace::Local
        }),
        r matches Err(e) ==> e@ == plain_error(
            ErrorCode::Unsupported,
            "the runtime offers neither a STAGE nor a LOCAL reference space"@,
        ),
{
    if has_stage {
        return Ok(ReferenceSpace::Stage);
    }
    if has_local {
        return Ok(ReferenceSpace::Local);
    }
    Err(
        Error::new(
            ErrorCode::Unsupported,
            "the runtime offers neither a STAGE nor a LOCAL reference space",
            TraceId::unattributed(),
        ),
    )
}

/// What is known of an opening.
pub struct OpeningView {
    pub extension_count: usize,
    pub runtime_name: Seq<char>,
    pub runtime_version: Seq<char>,
    pub blend_modes: Seq<Seq<char>>,
    pub view_count: usize,
    pub extent: (u32, u32),
    pub format_count: usize,
    pub format: u32,
    pub space: ReferenceSpace,
    pub image_counts: Seq<u32>,
}

/// A session that is being opened: what the runtime was found to offer so far, and what was
/// chosen of it. Each answer of the runtime is taken in turn, and the first one that a
/// session cannot be opened on ends the opening.
#[derive(Debug)]
pub struct SessionOpening {
    extension_count: usize,
    runtime_name: String,
    runtime_version: String,
    blend_modes: Vec<String>,
    view_count: usize,
    extent: (u32, u32),
    format_count: usize,
    format: u32,
    space: ReferenceSpace,
    image_counts: Vec<u32>,
}

impl View for SessionOpening {
    type V = OpeningView;

    closed spec fn view(&self) -> OpeningView {
        OpeningView {
            extension_count: self.extension_count,
            runtime_name: self.runtime_name@,
            runtime_version: self.runtime_version@,
            blend_modes: texts(self.blend_modes@),
            view_count: self.view_count,
            extent: self.extent,
            format_count: self.format_count,
            format: self.format,
            space: self.space,
            image_counts: self.image_counts@,
        }
    }
}

impl SessionOpening {
    /// Begins with the runtime's extensions, as they are written out.
    pub fn begin(written: &str, vulkan_enable2: bool) -> (r: Result<Self, Error>)
        ensures
            r is Ok <==> vulkan_enable2,
            r matches Ok(o) ==> o@ == (OpeningView {
                extension_count: trues_before(written@, written@.len() as int) as usize,
                runtime_name: Seq::empty(),
                runtime_version: Seq::empty(),
                blend_modes: Seq::empty(),
                view_count: 0,
                extent: (0, 0),
                format_count: 0,
                format: 0,
                space: ReferenceSpace::Local,
                image_counts: Seq::empty(),
            }),
            r matches Err(e) ==> e@ == no_enable2_error(
                trues_before(written@, written@.len() as int) as usize,
            ),
    {
        let extension_count: usize = count_advertised(written);
        match check_vulkan_enable2(vulkan_enable2, extension_count) {
            Ok(()) => {
                let opening = SessionOpening {
                    extension_count,
                    runtime_name: String::new(),
                    runtime_version: String::new(),
                    blend_modes: Vec::new(),
                    view_count: 0,
                    extent: (0, 0),
                    format_count: 0,
                    format: 0,
                    space: ReferenceSpace::Local,
                    image_counts: Vec::new(),
                };
                assert(opening@.runtime_name =~= Seq::<char>::empty());
                assert(opening@.runtime_version =~= Seq::<char>::empty());
                assert(opening@.blend_modes =~= Seq::<Seq<char>>::empty());
                assert(opening@.image_counts =~= Seq::<u32>::empty());
                Ok(opening)
            },
            Err(e) => Err(e),
        }
    }

    /// Takes the runtime's name and version.
    pub fn with_runtime(self, name: &str, version: &str) -> (r: Self)
        ensures
            r@ == (OpeningView { runtime_name: name@, runtime_version: version@, ..self@ }),
    {
        SessionOpening {
            extension_count: self.extension_count,
            runtime_name: name.to_owned(),
            runtime_version: version.to_owned(),
            blend_modes: self.blend_modes,
            view_count: self.view_count,
            extent: self.extent,
            format_count: self.format_count,
            format: self.format,
            space: self.space,
            image_counts: self.image_counts,
        }
    }

    /// Takes the ways in which the runtime blends, by number and by name.
    pub fn with_blend_modes(self, offered: &[i32], names: Vec<String>) -> (r: Result<Self, Error>)
        ensures
            r is Ok <==> offered@.contains(BLEND_MODE_OPAQUE),
            r matches Ok(o) ==> o@ == (OpeningView { blend_modes: texts(names@), ..self@ }),
            r matches Err(e) ==> e@ == not_opaque_error(texts(names@)),
    {
        match check_opaque_background(offered, names.as_slice()) {
            Ok(()) => Ok(
                SessionOpening {
                    extension_count: self.extension_count,
                    runtime_name: self.runtime_name,
                    runtime_version: self.runtime_version,
                    blend_modes: names,
                    view_count: self.view_count,
                    extent: self.extent,
                    format_count: self.format_count,
                    format: self.format,
                    space: self.space,
                    image_counts: self.image_counts,
                },
            ),
            Err(e) => Err(e),
        }
    }

    /// Takes the number of views, and the extent that the runtime recommends for the first.
    pub fn with_views(self, count: usize, extent: (u32, u32)) -> (r: Result<Self, Error>)
        ensures
            r is Ok <==> count > 0,
            r matches Ok(o) ==> o@ == (OpeningView { view_count: count, extent, ..self@ }),
            r matches Err(e) ==> e@ == plain_error(
                ErrorCode::Unsupported,
                "the runtime enumerated no views for the primary stereo configuration"@,
            ),
    {
        match check_view_configuration(count) {
            Ok(()) => Ok(
                SessionOpening {
                    extension_count: self.extension_count,
                    runtime_name: self.runtime_name,
                    runtime_version: self.runtime_version,
                    blend_modes: self.blend_modes,
                    view_count: count,
                    extent,
                    format_count: self.format_count,
                    format: self.format,
                    space: self.space,
                    image_counts: self.image_counts,
                },
            ),
            Err(e) => Err(e),
        }
    }

    /// Takes the colour formats that the runtime offers, and chooses the best.
    pub fn with_formats(self, formats: &[u32]) -> (r: Result<Self, Error>)
        ensures
            match best_format(formats@) {
                Some(format) => r is Ok && r->Ok_0@ == (OpeningView {
                    format_count: formats@.len() as usize,
                    format,
                    ..self@
                }),
                None => r is Err && r->Err_0@ == no_format_offered(formats@.len() as usize),
            },
    {
        match choose_color_format(formats) {
            Ok(format) => Ok(
                SessionOpening {
                    extension_count: self.extension_count,
                    runtime_name: self.runtime_name,
                    runtime_version: self.runtime_version,
                    blend_modes: self.blend_modes,
                    view_count: self.view_count,
                    extent: self.extent,
                    format_count: formats.len(),
                    format,
                    space: self.space,
                    image_counts: self.image_counts,
                },
            ),
            Err(e) => Err(e),
        }
    }

    /// Takes the spaces that the runtime offers, and chooses one.
    pub fn with_spaces(self, has_stage: bool, has_local: bool) -> (r: Result<Self, Error>)
        ensures
            r is Ok <==> has_stage || has_local,
            r matches Ok(o) ==> o@ == (OpeningView {
                space: if has_stage {
                    ReferenceSpace::Stage
                } else {
                    ReferenceSpace::Local
                },
                ..self@
            }),
            r matches Err(e) ==> e@ == plain_error(
                ErrorCode::Unsupported,
                "the runtime offers neither a STAGE nor a LOCAL reference space"@,
            ),
    {
        match choose_reference_space(has_stage, has_local) {
            Ok(space) => Ok(
                SessionOpening {
                    extension_count: self.extension_count,
                    runtime_name: self.runtime_name,
                    runtime_version: self.runtime_version,
                    blend_modes: self.blend_modes,
                    view_count: self.view_count,
                    extent: self.extent,
                    format_count: self.format_count,
                    format: self.format,
                    space,
                    image_counts: self.image_counts,
                },
            ),
            Err(e) => Err(e),
        }
    }

    /// Takes note of a swapchain and its images.
    pub fn note_swapchain(&mut self, image_count: u32)
        ensures
            final(self)@ == (OpeningView {
                image_counts: old(self)@.image_counts.push(image_count),
                ..old(self)@
            }),
    {
        self.image_counts.push(image_count);
    }

    /// The chosen colour format.
    pub fn format(&self) -> (r: u32)
        ensures
            r == self@.format,
    {
        self.format
    }

    /// The extent that is drawn.
    pub fn extent(&self) -> (r: (u32, u32))
        ensures
            r == self@.extent,
    {
        self.extent
    }

    /// The chosen space.
    pub fn space(&self) -> (r: ReferenceSpace)
        ensures
            r == self@.space,
    {
        self.space
    }

    /// Ends the opening: what is known of the session, and a ledger that counts its
    /// swapchains.
    pub fn conclude(self, vulkan: VulkanDeviceFacts) -> (r: (XrVulkanFacts, RenderFacts))
        ensures
            r.0.runtime_name@ == self@.runtime_name,
            r.0.runtime_version@ == self@.runtime_version,
            r.0.advertised_extension_count == self@.extension_count,
            r.0.vulkan_enable2_advertised,
            r.0.view_count == self@.view_count,
            texts(r.0.offered_blend_modes@) == self@.blend_modes,
            r.0.chosen_blend_mode@ == "OPAQUE"@,
            r.0.advertised_swapchain_format_count == self@.format_count,
            r.0.chosen_swapchain_format == self@.format,
            r.0.reference_space@ == self@.space.name(),
            r.0.observed_states@.len() == 0,
            r.0.vulkan == vulkan,
            r.1.frames_submitted == 0,
            r.1.frames_skipped == 0,
            r.1.frames_with_surface == 0,
            r.1.surface_draws == 0,
            r.1.dmabuf_draws == 0,
            r.1.shm_draws == 0,
            r.1.black_clears == 0,
            r.1.swapchains_created == self@.image_counts.len(),
            r.1.swapchain_image_counts@ == self@.image_counts,
            r.1.swapchain_extent == Some(self@.extent),
            r.1.swapchain_format == Some(self@.format),
    {
        let mut ledger = RenderFacts::new();
        let mut i: usize = 0;
        while i < self.image_counts.len()
            invariant
                i <= self.image_counts.len(),
                ledger.swapchains_created == i,
                ledger.swapchain_image_counts@ == self.image_counts@.take(i as int),
                ledger.frames_submitted == 0,
                ledger.frames_skipped == 0,
                ledger.frames_with_surface == 0,
                ledger.surface_draws == 0,
                ledger.dmabuf_draws == 0,
                ledger.shm_draws == 0,
                ledger.black_clears == 0,
            decreases self.image_counts.len() - i,
        {
            ledger.record_swapchain(self.image_counts[i]);
            i = i + 1;
            assert(ledger.swapchain_image_counts@ =~= self.image_counts@.take(i as int));
        }
        assert(self.image_counts@.take(i as int) =~= self.image_counts@);
        ledger.swapchain_extent = Some(self.extent);
        ledger.swapchain_format = Some(self.format);
        let facts = XrVulkanFacts {
            runtime_name: self.runtime_name,
            runtime_version: self.runtime_version,
            advertised_extension_count: self.extension_count,
            vulkan_enable2_advertised: true,
            view_count: self.view_count,
            offered_blend_modes: self.blend_modes,
            chosen_blend_mode: "OPAQUE".to_owned(),
            advertised_swapchain_format_count: self.format_count,
            chosen_swapchain_format: self.format,
            reference_space: self.space.as_str().to_owned(),
            observed_states: Vec::new(),
            vulkan,
        };
        (facts, ledger)
    }
}

/// A state that the runtime tells of, as far as it matters.
#[derive(Debug, Clone, Copy, PartialEq, Eq, Structural)]
pub enum RuntimeState {
    Ready,
    Stopping,
    Exiting,
    LossPending,
    Other,
}

/// What a state asks for.
#[derive(Debug, Clone, Copy, PartialEq, Eq, Structural)]
pub enum StateOrder {
    /// Begin the session.
    Begin,
    /// End the session.
    End,
    /// Leave.
    Exit,
    /// Nothing.
    Nothing,
}

/// What a state asks for.
pub fn order_of(state: RuntimeState) -> (r: StateOrder)
    ensures
        r == (match state {
            RuntimeState::Ready => StateOrder::Begin,
            RuntimeState::Stopping => StateOrder::End,
            RuntimeState::Exiting => StateOrder::Exit,
            RuntimeState::LossPending => StateOrder::Exit,
            RuntimeState::Other => StateOrder::Nothing,
        }),
{
    match state {
        RuntimeState::Ready => StateOrder::Begin,
        RuntimeState::Stopping => StateOrder::End,
        RuntimeState::Exiting => StateOrder::Exit,
        RuntimeState::LossPending => StateOrder::Exit,
        RuntimeState::Other => StateOrder::Nothing,
    }
}

/// Whether a session runs, whether it was closed, and the states it went through.
#[derive(Debug)]
pub struct SessionTracker {
    running: bool,
    closed: bool,
    observed: Vec<String>,
}

/// What closing a session begins with.
#[derive(Debug, Clone, Copy, PartialEq, Eq, Structural)]
pub enum CloseStep {
    /// It was closed before.
    Nothing,
    /// Ask the runtime to end it.
    RequestExit,
    /// Wait for the device, and give everything back.
    Release,
}

impl SessionTracker {
    /// Whether the session runs.
    pub closed spec fn runs(&self) -> bool {
        self.running
    }

    /// Whether the session was closed.
    pub closed spec fn was_closed(&self) -> bool {
        self.closed
    }

    /// The states that the session went through.
    pub closed spec fn states(&self) -> Seq<Seq<char>> {
        texts(self.observed@)
    }

    /// A session that was opened and does not run yet.
    pub fn new() -> (r: Self)
        ensures
            !r.runs(),
            !r.was_closed(),
            r.states() == Seq::<Seq<char>>::empty(),
    {
        let r = SessionTracker { running: false, closed: false, observed: Vec::new() };
        assert(r.states() =~= Seq::<Seq<char>>::empty());
        r
    }

    /// Whether the session runs.
    pub fn is_running(&self) -> (r: bool)
        ensures
            r == self.runs(),
    {
        self.running
    }

    /// The states that the session went through.
    pub fn observed_states(&self) -> (r: &[String])
        ensures
            texts(r@) == self.states(),
    {
        self.observed.as_slice()
    }

    /// Takes note of a state, and tells what it asks for.
    pub fn observe(&mut self, state: RuntimeState, written: &str) -> (r: StateOrder)
        ensures
            final(self).runs() == old(self).runs(),
            final(self).was_closed() == old(self).was_closed(),
            final(self).states() == old(self).states().push(written@),
            r == (match state {
                RuntimeState::Ready => StateOrder::Begin,
                RuntimeState::Stopping => StateOrder::End,
                RuntimeState::Exiting => StateOrder::Exit,
                RuntimeState::LossPending => StateOrder::Exit,
                RuntimeState::Other => StateOrder::Nothing,
            }),
    {
        self.observed.push(written.to_owned());
        assert(self.states() =~= old(self).states().push(written@));
        order_of(state)
    }

    /// The session began.
    pub fn began(&mut self)
        ensures
            final(self).runs(),
            final(self).was_closed() == old(self).was_closed(),
            final(self).states() == old(self).states(),
    {
        self.running = true;
    }

    /// The session ended.
    pub fn ended(&mut self)
        ensures
            !final(self).runs(),
            final(self).was_closed() == old(self).was_closed(),
            final(self).states() == old(self).states(),
    {
        self.running = false;
    }

    /// What is told of the session after its events were taken.
    pub fn session_state(&self, exiting: bool) -> (r: SessionState)
        ensures
            r == (if exiting {
                SessionState::Stopping
            } else if self.runs() {
                SessionState::Running
            } else {
                SessionState::Idle
            }),
    {
        if exiting {
            SessionState::Stopping
        } else if self.running {
            SessionState::Running
        } else {
            SessionState::Idle
        }
    }

    /// Whether a frame can be shown.
    pub fn check_running(&self) -> (r: Result<(), Error>)
        ensures
            r is Ok <==> self.runs(),
            r matches Err(e) ==> e@ == plain_error(
                ErrorCode::HostRefused,
                "the OpenXR session is not running, so no frame can be submitted"@,
            ),
    {
        if self.running {
            return Ok(());
        }
        Err(
            Error::new(
                ErrorCode::HostRefused,
                "the OpenXR session is not running, so no frame can be submitted",
                TraceId::unattributed(),
            ),
        )
    }

    /// Begins to close the session. From the second time on there is nothing to do.
    pub fn begin_close(&mut self) -> (r: CloseStep)
        ensures
            r == (if old(self).was_closed() {
                CloseStep::Nothing
            } else if old(self).runs() {
                CloseStep::RequestExit
            } else {
                CloseStep::Release
            }),
            final(self).was_closed(),
            final(self).runs() == old(self).runs(),
            final(self).states() == old(self).states(),
    {
        if self.closed {
            return CloseStep::Nothing;
        }
        self.closed = true;
        if self.running {
            CloseStep::RequestExit
        } else {
            CloseStep::Release
        }
    }

    /// Whether to ask for events once more while the session closes.
    pub fn close_pumps_on(&self, rounds_done: u32, exiting: bool) -> (r: bool)
        ensures
            r == (rounds_done < CLOSE_PUMP_ROUNDS && !exiting && self.runs()),
    {
        rounds_done < CLOSE_PUMP_ROUNDS && !exiting && self.running
    }
}

/// What a failed request to end a session comes to: a session that does not run needs none.
pub fn exit_request_outcome(raw: i32) -> (r: Result<(), Error>)
    ensures
        r is Ok <==> raw == XR_ERROR_SESSION_NOT_RUNNING,
        r matches Err(e) ==> e@ == XrCall::RequestExit.refusal_of(raw),
{
    if raw == XR_ERROR_SESSION_NOT_RUNNING {
        return Ok(());
    }
    Err(XrCall::RequestExit.refused(raw))
}

/// What a failed end of a session comes to while it closes: a session that does not stop is
/// left as it is.
pub fn forced_end_outcome(raw: i32) -> (r: Result<(), Error>)
    ensures
        r is Ok <==> raw == XR_ERROR_SESSION_NOT_STOPPING,
        r matches Err(e) ==> e@ == XrCall::EndSession.refusal_of(raw),
{
    if raw == XR_ERROR_SESSION_NOT_STOPPING {
        return Ok(());
    }
    Err(XrCall::EndSession.refused(raw))
}

/// What the wait for a session to run comes to, so far.
#[derive(Debug, Clone, Copy, PartialEq, Eq, Structural)]
pub enum ReadyStep {
    /// The session runs.
    Running,
    /// It will not.
    GivenUp,
    /// Wait, at most so long, and ask again.
    WaitUpTo { ceiling_millis: u64 },
}

/// The wait for a session to run.
#[derive(Debug, Clone, Copy, PartialEq, Eq, Structural)]
pub struct ReadyWait {
    policy: RetryPolicy,
    attempts: u8,
}

impl ReadyWait {
    /// How the wait is done.
    pub closed spec fn rule(self) -> RetryPolicy {
        self.policy
    }

    /// How many waits there were.
    pub closed spec fn waits(self) -> u8 {
        self.attempts
    }

    /// A wait that begins.
    pub fn new(policy: RetryPolicy) -> (r: Self)
        ensures
            r.rule() == policy,
            r.waits() == 0,
    {
        ReadyWait { policy, attempts: 0 }
    }

    /// Decides after the events were taken: a session that leaves will not run; one that
    /// runs is there; for another one the policy says whether to wait once more.
    pub fn after_events(&mut self, exiting: bool, running: bool) -> (r: ReadyStep)
        ensures
            final(self).rule() == old(self).rule(),
            r == (if exiting {
                ReadyStep::GivenUp
            } else if running {
                ReadyStep::Running
            } else if old(self).waits() < old(self).rule().retries() {
                ReadyStep::WaitUpTo {
                    ceiling_millis: old(self).rule().wait().ceiling(
                        old(self).waits() as nat,
                    ) as u64,
                }
            } else {
                ReadyStep::GivenUp
            }),
            final(self).waits() == (if r is WaitUpTo {
                (old(self).waits() + 1) as u8
            } else {
                old(self).waits()
            }),
            old(self).waits() <= old(self).rule().retries() ==> final(self).waits()
                <= final(self).rule().retries(),
    {
        if exiting {
            return ReadyStep::GivenUp;
        }
        if running {
            return ReadyStep::Running;
        }
        if !self.policy.should_retry(self.attempts) {
            return ReadyStep::GivenUp;
        }
        let ceiling_millis: u64 = self.policy.delay_ceiling_millis(self.attempts as u32);
        self.attempts = self.attempts + 1;
        ReadyStep::WaitUpTo { ceiling_millis }
    }
}

/// A call to the runtime that may be refused.
#[derive(Debug, Clone, Copy, PartialEq, Eq, Hash, Structural)]
pub enum XrCall {
    EnumerateExtensions,
    CreateInstance,
    InstanceProperties,
    System,
    BlendModes,
    ViewConfiguration,
    GraphicsRequirements,
    CreateGraphicsInstance,
    GraphicsDevice,
    CreateGraphicsDevice,
    CreateSession,
    SwapchainFormats,
    ReferenceSpaces,
    CreateReferenceSpace,
    CreateSwapchain,
    SwapchainImages,
    PollEvent,
    BeginSession,
    EndSession,
    RequestExit,
    WaitFrame,
    BeginFrame,
    EndSkippedFrame,
    LocateViews,
    AcquireImage,
    WaitImage,
    ReleaseImage,
    EndFrame,
}

impl XrCall {
    /// What is said where the call is refused.
    pub open spec fn failure_text(self) -> Seq<char> {
        match self {
            XrCall::EnumerateExtensions => "xrEnumerateInstanceExtensionProperties failed"@,
            XrCall::CreateInstance => "xrCreateInstance failed"@,
            XrCall::InstanceProperties => "xrGetInstanceProperties failed"@,
            XrCall::System => "xrGetSystem failed"@,
            XrCall::BlendModes => "xrEnumerateEnvironmentBlendModes failed"@,
            XrCall::ViewConfiguration => "xrEnumerateViewConfigurationViews failed"@,
            XrCall::GraphicsRequirements => "xrGetVulkanGraphicsRequirements2KHR failed"@,
            XrCall::CreateGraphicsInstance => "xrCreateVulkanInstanceKHR failed"@,
            XrCall::GraphicsDevice => "xrGetVulkanGraphicsDevice2KHR failed"@,
            XrCall::CreateGraphicsDevice => "xrCreateVulkanDeviceKHR failed"@,
            XrCall::CreateSession => "xrCreateSession failed"@,
            XrCall::SwapchainFormats => "xrEnumerateSwapchainFormats failed"@,
            XrCall::ReferenceSpaces => "xrEnumerateReferenceSpaces failed"@,
            XrCall::CreateReferenceSpace => "xrCreateReferenceSpace failed"@,
            XrCall::CreateSwapchain => "xrCreateSwapchain failed"@,
            XrCall::SwapchainImages => "xrEnumerateSwapchainImages failed"@,
            XrCall::PollEvent => "xrPollEvent failed"@,
            XrCall::BeginSession => "xrBeginSession failed"@,
            XrCall::EndSession => "xrEndSession failed"@,
            XrCall::RequestExit => "xrRequestExitSession failed"@,
            XrCall::WaitFrame => "xrWaitFrame failed"@,
            XrCall::BeginFrame => "xrBeginFrame failed"@,
            XrCall::EndSkippedFrame => "xrEndFrame for a skipped frame failed"@,
            XrCall::LocateViews => "xrLocateViews failed"@,
            XrCall::AcquireImage => "xrAcquireSwapchainImage failed"@,
            XrCall::WaitImage => "xrWaitSwapchainImage failed"@,
            XrCall::ReleaseImage => "xrReleaseSwapchainImage failed"@,
            XrCall::EndFrame => "xrEndFrame failed"@,
        }
    }

    /// What is said where the call is refused.
    pub fn failure(self) -> (r: &'static str)
        ensures
            r@ == self.failure_text(),
    {
        match self {
            XrCall::EnumerateExtensions => "xrEnumerateInstanceExtensionProperties failed",
            XrCall::CreateInstance => "xrCreateInstance failed",
            XrCall::InstanceProperties => "xrGetInstanceProperties failed",
            XrCall::System => "xrGetSystem failed",
            XrCall::BlendModes => "xrEnumerateEnvironmentBlendModes failed",
            XrCall::ViewConfiguration => "xrEnumerateViewConfigurationViews failed",
            XrCall::GraphicsRequirements => "xrGetVulkanGraphicsRequirements2KHR failed",
            XrCall::CreateGraphicsInstance => "xrCreateVulkanInstanceKHR failed",
            XrCall::GraphicsDevice => "xrGetVulkanGraphicsDevice2KHR failed",
            XrCall::CreateGraphicsDevice => "xrCreateVulkanDeviceKHR failed",
            XrCall::CreateSession => "xrCreateSession failed",
            XrCall::SwapchainFormats => "xrEnumerateSwapchainFormats failed",
            XrCall::ReferenceSpaces => "xrEnumerateReferenceSpaces failed",
            XrCall::CreateReferenceSpace => "xrCreateReferenceSpace failed",
            XrCall::CreateSwapchain => "xrCreateSwapchain failed",
            XrCall::SwapchainImages => "xrEnumerateSwapchainImages failed",
            XrCall::PollEvent => "xrPollEvent failed",
            XrCall::BeginSession => "xrBeginSession failed",
            XrCall::EndSession => "xrEndSession failed",
            XrCall::RequestExit => "xrRequestExitSession failed",
            XrCall::WaitFrame => "xrWaitFrame failed",
            XrCall::BeginFrame => "xrBeginFrame failed",
            XrCall::EndSkippedFrame => "xrEndFrame for a skipped frame failed",
            XrCall::LocateViews => "xrLocateViews failed",
            XrCall::AcquireImage => "xrAcquireSwapchainImage failed",
            XrCall::WaitImage => "xrWaitSwapchainImage failed",
            XrCall::ReleaseImage => "xrReleaseSwapchainImage failed",
            XrCall::EndFrame => "xrEndFrame failed",
        }
    }

    /// The error of the call where the runtime refused it.
    pub open spec fn refusal_of(self, raw: i32) -> ErrorView {
        refusal(
            self.failure_text(),
            "xr_result"@,
            raw,
            "xr_result_name"@,
            xr_result_name(raw),
        )
    }

    /// The error of the call, where the runtime refused it.
    pub fn refused(self, raw: i32) -> (r: Error)
        ensures
            r@ == self.refusal_of(raw),
    {
        openxr_failure(self.failure(), raw)
    }

    /// What comes of the runtime's answer to the call.
    pub fn answered<T>(self, answer: Result<T, i32>) -> (r: Result<T, Error>)
        ensures
            match answer {
                Ok(value) => r == Ok::<T, Error>(value),
                Err(raw) => r is Err && r->Err_0@ == self.refusal_of(raw),
            },
    {
        match answer {
            Ok(value) => Ok(value),
            Err(raw) => Err(self.refused(raw)),
        }
    }
}

/// What is done to show one frame, once the runtime said when.
#[derive(Debug, Clone, Copy, PartialEq, Eq, Structural)]
pub enum FrameStep {
    /// Begin the frame.
    Begin,
    /// End it with nothing in it.
    EndSkipped,
    /// Ask where the views are.
    Locate,
    /// Take an image of a view.
    Acquire { view: usize },
    /// Wait until the image may be written.
    WaitImage { view: usize },
    /// Draw into it.
    Draw { view: usize },
    /// Copy what was drawn.
    Capture { view: usize },
    /// Give the image back.
    Release { view: usize },
    /// End the frame with the views in it.
    End,
}

/// What is done with one view. Only what is drawn for the first one is ever copied.
pub open spec fn view_steps(view: int, capture: bool) -> Seq<FrameStep> {
    seq![
        FrameStep::Acquire { view: view as usize },
        FrameStep::WaitImage { view: view as usize },
        FrameStep::Draw { view: view as usize },
    ] + (if capture && view == 0 {
        seq![FrameStep::Capture { view: view as usize }]
    } else {
        Seq::empty()
    }) + seq![FrameStep::Release { view: view as usize }]
}

/// What is done with the first `count` views.
pub open spec fn all_view_steps(count: int, capture: bool) -> Seq<FrameStep>
    decreases count,
{
    if count <= 0 {
        Seq::empty()
    } else {
        all_view_steps(count - 1, capture) + view_steps(count - 1, capture)
    }
}

/// What is done to show one frame: nothing is drawn where the runtime wants nothing.
pub open spec fn frame_steps(should_render: bool, views: int, capture: bool) -> Seq<FrameStep> {
    if should_render {
        seq![FrameStep::Begin, FrameStep::Locate] + all_view_steps(views, capture) + seq![
            FrameStep::End,
        ]
    } else {
        seq![FrameStep::Begin, FrameStep::EndSkipped]
    }
}

/// What is done to show one frame.
pub fn plan_frame(should_render: bool, views: usize, capture: bool) -> (r: Vec<FrameStep>)
    ensures
        r@ == frame_steps(should_render, views as int, capture),
{
    let mut steps: Vec<FrameStep> = Vec::new();
    steps.push(FrameStep::Begin);
    if !should_render {
        steps.push(FrameStep::EndSkipped);
        assert(steps@ =~= frame_steps(should_render, views as int, capture));
        return steps;
    }
    steps.push(FrameStep::Locate);
    let ghost head = steps@;
    let mut view: usize = 0;
    assert(steps@ =~= head + all_view_steps(0, capture));
    while view < views
        invariant
            view <= views,
            steps@ == head + all_view_steps(view as int, capture),
        decreases views - view,
    {
        steps.push(FrameStep::Acquire { view });
        steps.push(FrameStep::WaitImage { view });
        steps.push(FrameStep::Draw { view });
        if capture && view == 0 {
            steps.push(FrameStep::Capture { view });
        }
        steps.push(FrameStep::Release { view });
        view = view + 1;
        assert(steps@ =~= head + (all_view_steps(view - 1, capture) + view_steps(
            view - 1,
            capture,
        )));
    }
    steps.push(FrameStep::End);
    assert(steps@ =~= frame_steps(should_render, views as int, capture));
    steps
}

/// The images that some steps took and did not give back.
pub open spec fn images_held(steps: Seq<FrameStep>) -> int
    decreases steps.len(),
{
    if steps.len() == 0 {
        0
    } else {
        images_held(steps.drop_last()) + (match steps.last() {
            FrameStep::Acquire { view } => 1int,
            FrameStep::Release { view } => -1int,
            _ => 0int,
        })
    }
}

proof fn lemma_images_held_adds(a: Seq<FrameStep>, b: Seq<FrameStep>)
    ensures
        images_held(a + b) == images_held(a) + images_held(b),
    decreases b.len(),
{
    if b.len() == 0 {
        assert(a + b =~= a);
    } else {
        lemma_images_held_adds(a, b.drop_last());
        assert((a + b).drop_last() =~= a + b.drop_last());
    }
}

proof fn lemma_view_holds_nothing(view: int, capture: bool)
    ensures
        images_held(view_steps(view, capture)) == 0,
{
    reveal_with_fuel(images_held, 6);
    let first = seq![
        FrameStep::Acquire { view: view as usize },
        FrameStep::WaitImage { view: view as usize },
        FrameStep::Draw { view: view as usize },
    ];
    let middle = if capture && view == 0 {
        seq![FrameStep::Capture { view: view as usize }]
    } else {
        Seq::empty()
    };
    let last = seq![FrameStep::Release { view: view as usize }];
    lemma_images_held_adds(first, middle);
    lemma_images_held_adds(first + middle, last);
    assert(first.drop_last().drop_last() =~= seq![FrameStep::Acquire { view: view as usize }]);
    assert(images_held(first) == 1);
    assert(images_held(middle) == 0);
    assert(images_held(last) == -1);
}

proof fn lemma_views_hold_nothing(count: int, capture: bool)
    ensures
        images_held(all_view_steps(count, capture)) == 0,
    decreases count,
{
    if count > 0 {
        lemma_views_hold_nothing(count - 1, capture);
        lemma_view_holds_nothing(count - 1, capture);
        lemma_images_held_adds(
            all_view_steps(count - 1, capture),
            view_steps(count - 1, capture),
        );
    }
}

/// Every image that a frame takes is given back before the frame ends.
pub proof fn law_a_frame_gives_its_images_back(should_render: bool, views: int, capture: bool)
    ensures
        images_held(frame_steps(should_render, views, capture).drop_last()) == 0,
{
    reveal_with_fuel(images_held, 3);
    if should_render {
        let head = seq![FrameStep::Begin, FrameStep::Locate];
        lemma_views_hold_nothing(views, capture);
        lemma_images_held_adds(head, all_view_steps(views, capture));
        assert(head.drop_last() =~= seq![FrameStep::Begin]);
        assert(frame_steps(should_render, views, capture).drop_last() =~= head + all_view_steps(
            views,
            capture,
        ));
    } else {
        assert(frame_steps(should_render, views, capture).drop_last() =~= seq![FrameStep::Begin]);
    }
}

/// Whether there is a swapchain for every view.
pub fn check_view_count(located: usize, swapchains: usize) -> (r: Result<(), Error>)
    ensures
        r is Ok <==> located == swapchains,
        r matches Err(e) ==> e@ == plain_error(
            ErrorCode::Internal,
            "the runtime located a different number of views than we made swapchains for"@,
        ).with("located"@, DetailView::Int(located as i64 as int)).with(
            "swapchains"@,
            DetailView::Int(swapchains as i64 as int),
        ),
{
    if located == swapchains {
        return Ok(());
    }
    Err(
        Error::new(
            ErrorCode::Internal,
            "the runtime located a different number of views than we made swapchains for",
            TraceId::unattributed(),
        ).with_detail("located", located as i64).with_detail("swapchains", swapchains as i64),
    )
}

/// Whether there is a framebuffer for an image that the runtime gave.
pub fn check_image_index(image_index: u32, framebuffers: usize) -> (r: Result<usize, Error>)
    ensures
        r is Ok <==> image_index < framebuffers,
        r matches Ok(i) ==> i == image_index,
        r matches Err(e) ==> e@ == plain_error(
            ErrorCode::Internal,
            "the runtime acquired a swapchain image index we have no framebuffer for"@,
        ).with("image_index"@, DetailView::Int(image_index as int)),
{
    let index: usize = image_index as usize;
    if index < framebuffers {
        return Ok(index);
    }
    Err(
        Error::new(
            ErrorCode::Internal,
            "the runtime acquired a swapchain image index we have no framebuffer for",
            TraceId::unattributed(),
        ).with_detail("image_index", image_index as i64),
    )
}

/// Whether a session may be opened on a background. There is one background, so it may.
pub fn check_background(asked: Background, own: Background) -> (r: Result<(), Error>)
    ensures
        r is Ok,
{
    if asked == own {
        return Ok(());
    }
    Err(
        Error::new(
            ErrorCode::Internal,
            "the session config and the renderer disagree on the background colour",
            TraceId::unattributed(),
        ),
    )
}

/// The part of a wait, in millionths, by the clock's last digits.
pub fn jitter_millionths(subsec_nanos: u32) -> (r: u32)
    ensures
        r == subsec_nanos % 1_000_000,
        r < 1_000_000,
{
    subsec_nanos % 1_000_000
}

} // verus!
