//! What the plain values promise: what goes into them comes out of them.

use vstd::prelude::*;

use crate::capture::testing::SolidColourFrameSource;
use crate::capture::FrameSource;
use crate::compositor::buffer::{
    default_dmabuf_formats, kind_of, seen_views, window_name, ClientBufferKind,
    ClientTextureImporter, DmabufHandoff, ImportView, RecordingImporter,
};
use crate::compositor::socket::{refuse_host_socket, SocketName};
use crate::compositor::window::WindowId;
use crate::display::hyprland::SystemCommandRunner;
use crate::display::OutputId;
use crate::error::{DetailView, Error, ErrorCode};
use crate::frame::{Frame, FrameOrigin, PixelFormat};
use crate::id::{Id, IdGen, IdScheme, IdempotencyKey, TraceId};
use crate::input::ButtonState;
use crate::panel::Panel;
use crate::render::dmabuf::{DrmFormat, DrmModifier};
use crate::render::session::XrVulkanRuntime;
use crate::render::vulkan::{openxr_failure, vulkan_failure};
use crate::scope::Background;
use crate::secret::{EnvSecretSource, Secret};
use crate::testing::{FixedClock, SequentialIdGen};
use crate::text::digits_value;
use crate::time::{Clock, UtcTimestamp};
use crate::xr::{CompositionPlan, PressState, SessionConfig};

verus! {

broadcast use vstd::seq::group_seq_axioms;

/// A secret gives its value back to whoever asks for it, and shows the same to everybody else,
/// whatever it is.
pub proof fn law_secret_keeps_its_value<T>(
    a: T,
    b: T,
    kept: Secret<T>,
    other: Secret<T>,
    exposed: &T,
    given: T,
    debug: (&'static str, &'static str),
    display: (&'static str, &'static str),
)
    requires
        call_ensures(Secret::<T>::new, (a,), kept),
        call_ensures(Secret::<T>::new, (b,), other),
        call_ensures(Secret::<T>::expose, (&kept,), exposed),
        call_ensures(Secret::<T>::into_inner, (kept,), given),
        call_ensures(Secret::<T>::debug_text, (&kept,), debug.0),
        call_ensures(Secret::<T>::debug_text, (&other,), debug.1),
        call_ensures(Secret::<T>::display_text, (&kept,), display.0),
        call_ensures(Secret::<T>::display_text, (&other,), display.1),
    ensures
        *exposed == a,
        given == a,
        debug.0@ == debug.1@,
        display.0@ == display.1@,
{
}

/// A secret of the environment is there exactly where the environment holds one, and is what it
/// holds; that it is not there is told by its name alone.
pub proof fn law_secret_is_that_of_the_environment(
    source: EnvSecretSource,
    name: &str,
    found: Option<String>,
    r: Result<Secret<String>, Error>,
    exposed: &String,
)
    requires
        call_ensures(EnvSecretSource::resolve, (&source, name, found), r),
        r is Ok ==> call_ensures(Secret::<String>::expose, (&r->Ok_0,), exposed),
    ensures
        r is Ok <==> found is Some,
        found matches Some(value) ==> *exposed == value,
        r matches Err(e) ==> e@.code == ErrorCode::CapabilityUnavailable && e@.details == seq![
            ("name"@, DetailView::Text(name@)),
        ],
{
    if r is Err {
        assert(r->Err_0@.details =~= seq![("name"@, DetailView::Text(name@))]);
    }
}

/// A point in time, and a clock that stands at it, give its milliseconds back.
pub proof fn law_milliseconds_are_given_back(
    millis: i64,
    ts: UtcTimestamp,
    r: i64,
    clock: FixedClock,
    now: UtcTimestamp,
    told: i64,
)
    requires
        call_ensures(UtcTimestamp::from_millis_since_epoch, (millis,), ts),
        call_ensures(UtcTimestamp::millis_since_epoch, (ts,), r),
        call_ensures(FixedClock::at_millis, (millis,), clock),
        call_ensures(<FixedClock as Clock>::now_utc, (&clock,), now),
        call_ensures(UtcTimestamp::millis_since_epoch, (now,), told),
    ensures
        r == millis,
        told == millis,
{
}

/// An identifier, a trace and a key give back the text and the scheme that they were made with.
/// There is one exactly for a text that is not empty.
pub proof fn law_identifier_gives_its_text_back(
    scheme: IdScheme,
    text: &str,
    made: Result<Id, Error>,
    told_scheme: IdScheme,
    told: &str,
    trace: TraceId,
    told_trace: Option<&str>,
    key: IdempotencyKey,
    told_key: &str,
)
    requires
        call_ensures(Id::new, (scheme, text), made),
        made is Ok ==> {
            &&& call_ensures(Id::scheme, (&made->Ok_0,), told_scheme)
            &&& call_ensures(Id::as_str, (&made->Ok_0,), told)
            &&& call_ensures(TraceId::new, (made->Ok_0,), trace)
            &&& call_ensures(TraceId::as_str, (&trace,), told_trace)
            &&& call_ensures(IdempotencyKey::new, (made->Ok_0,), key)
            &&& call_ensures(IdempotencyKey::as_str, (&key,), told_key)
        },
    ensures
        made is Err <==> text@.len() == 0,
        made is Ok ==> {
            &&& told_scheme == scheme
            &&& told@ == text@
            &&& told_trace is Some
            &&& told_trace->0@ == text@
            &&& told_key@ == text@
        },
{
}

/// Identifiers that are counted begin with the prefix and a hyphen, and end with the number, in
/// eight digits or more, one more for each.
pub proof fn law_identifiers_are_counted(
    first: &mut SequentialIdGen,
    second: &mut SequentialIdGen,
    a: Result<Id, Error>,
    b: Result<Id, Error>,
)
    requires
        call_ensures(<SequentialIdGen as IdGen>::next_id, (first,), a),
        *second == *final(first),
        call_ensures(<SequentialIdGen as IdGen>::next_id, (second,), b),
        first.next_number() < u64::MAX,
    ensures
        a is Ok && b is Ok,
        ({
            let head = old(first).prefix() + "-"@;
            let x = a->Ok_0@.text;
            let y = b->Ok_0@.text;
            &&& head.is_prefix_of(x)
            &&& head.is_prefix_of(y)
            &&& x.len() >= head.len() + 8
            &&& digits_value(x.skip(head.len() as int)) == old(first).next_number()
            &&& digits_value(y.skip(head.len() as int)) == old(first).next_number() + 1
        }),
{
    let head = first.prefix() + "-"@;
    let n = first.next_number() as nat;
    let x = a->Ok_0@.text;
    let y = b->Ok_0@.text;
    crate::text::law_padded_spelling_is_as_wide_as_asked(n, 8);
    crate::text::law_padded_spelling_is_as_wide_as_asked(n + 1, 8);
    assert(x.subrange(0, head.len() as int) =~= head);
    assert(y.subrange(0, head.len() as int) =~= head);
    assert(x.skip(head.len() as int) =~= crate::text::padded_decimal(n, 8));
    assert(y.skip(head.len() as int) =~= crate::text::padded_decimal(n + 1, 8));
}

/// The socket of the host is refused, and no other; a name that is not empty is taken as it is,
/// from a bound socket too.
pub proof fn law_socket_of_the_host_is_refused(
    name: &str,
    host: Option<&str>,
    refused: Result<(), Error>,
    made: Result<SocketName, Error>,
    reported: Result<SocketName, Error>,
    told: &str,
)
    requires
        call_ensures(refuse_host_socket, (name, host), refused),
        call_ensures(SocketName::new, (name,), made),
        call_ensures(SocketName::reported, (true, Some(name)), reported),
        made is Ok ==> call_ensures(SocketName::as_str, (&made->Ok_0,), told),
    ensures
        host is None ==> refused is Ok,
        host matches Some(taken) ==> (refused is Err <==> taken@ == name@),
        made is Err <==> name@.len() == 0,
        reported is Err <==> name@.len() == 0,
        made is Ok ==> told@ == name@,
        reported is Ok ==> reported->Ok_0@ == name@,
{
}

/// A call that was refused is told by its message and by its code, as a number and by name.
pub proof fn law_refusal_tells_the_code(message: &str, raw: i32, vulkan: Error, openxr: Error)
    requires
        call_ensures(vulkan_failure, (message, raw), vulkan),
        call_ensures(openxr_failure, (message, raw), openxr),
    ensures
        vulkan@.code == ErrorCode::HostRefused,
        openxr@.code == ErrorCode::HostRefused,
        vulkan@.message == message@,
        openxr@.message == message@,
        vulkan@.details.contains(("vk_result"@, DetailView::Int(raw as int))),
        openxr@.details.contains(("xr_result"@, DetailView::Int(raw as int))),
        vulkan@.details.len() == 2,
        openxr@.details.len() == 2,
        vulkan@.details[1].0 == "vk_result_name"@,
        openxr@.details[1].0 == "xr_result_name"@,
{
    reveal_strlit("vk_result");
    reveal_strlit("vk_result_name");
    reveal_strlit("xr_result");
    reveal_strlit("xr_result_name");
    assert("vk_result"@.len() != "vk_result_name"@.len());
    assert("xr_result"@.len() != "xr_result_name"@.len());
    assert(vulkan@.details[0] == ("vk_result"@, DetailView::Int(raw as int)));
    assert(openxr@.details[0] == ("xr_result"@, DetailView::Int(raw as int)));
}

/// Clients may share buffers with and without opacity, each in rows and in an arrangement that
/// is not told.
pub proof fn law_clients_may_share_these_layouts(
    r: Vec<(DrmFormat, DrmModifier)>,
    codes: (u32, u32),
)
    requires
        call_ensures(default_dmabuf_formats, (), r),
        call_ensures(DrmFormat::as_u32, (r@[0].0,), codes.0),
        call_ensures(DrmFormat::as_u32, (r@[2].0,), codes.1),
    ensures
        r@.len() == 4,
        codes.0 == 0x3432_5241,
        codes.1 == 0x3432_5258,
        r@[0].0.code() == r@[1].0.code(),
        r@[2].0.code() == r@[3].0.code(),
        r@[1].1.value() == 0 && r@[3].1.value() == 0,
        r@[0].1.value() == 0x00ff_ffff_ffff_ffff && r@[2].1.value() == 0x00ff_ffff_ffff_ffff,
{
}

/// An importer that records knows each buffer by its window and its kind, in order, and a
/// graphics buffer by its description too.
pub proof fn law_importer_knows_what_it_took<D>(
    before: RecordingImporter<D>,
    after: RecordingImporter<D>,
    import: ImportView,
    seen: Vec<(Option<WindowId>, ClientBufferKind)>,
    more: Vec<(Option<WindowId>, ClientBufferKind)>,
    described: Vec<DmabufHandoff>,
    described_more: Vec<DmabufHandoff>,
    count: usize,
)
    requires
        after.imports() == before.imports().push(import),
        call_ensures(RecordingImporter::<D>::seen, (&before,), seen),
        call_ensures(RecordingImporter::<D>::seen, (&after,), more),
        call_ensures(RecordingImporter::<D>::dmabufs, (&before,), described),
        call_ensures(RecordingImporter::<D>::dmabufs, (&after,), described_more),
        call_ensures(RecordingImporter::<D>::count, (&after,), count),
    ensures
        count == before.imports().len() + 1,
        more@.len() == seen@.len() + 1,
        forall|i: int|
            0 <= i < seen@.len() ==> (#[trigger] more@[i]).1 == seen@[i].1 && window_name(
                more@[i].0,
            ) == window_name(seen@[i].0),
        import matches ImportView::Shm { window, .. } ==> {
            &&& more@.last().1 == ClientBufferKind::Shm
            &&& window_name(more@.last().0) == Some(window)
            &&& described_more@ == described@
        },
        import matches ImportView::Dmabuf { window, handoff, .. } ==> {
            &&& more@.last().1 == ClientBufferKind::Dmabuf
            &&& window_name(more@.last().0) == window
            &&& described_more@ == described@.push(handoff)
        },
{
    let all = after.imports();
    let n = before.imports().len() as int;
    assert(all.drop_last() =~= before.imports());
    assert(all.last() == import);
    let old_kinds = seen_views(seen@);
    let new_kinds = seen_views(more@);
    assert(old_kinds.len() == seen@.len() && new_kinds.len() == more@.len());
    assert forall|i: int| 0 <= i < seen@.len() implies (#[trigger] more@[i]).1 == seen@[i].1
        && window_name(more@[i].0) == window_name(seen@[i].0) by {
        assert(old_kinds[i] == kind_of(before.imports()[i]));
        assert(new_kinds[i] == kind_of(all[i]));
    }
    assert(new_kinds[n] == kind_of(import));
}

/// Commands of the host are run with the variables that were set, in order.
pub proof fn law_variables_are_set_in_order(
    before: SystemCommandRunner,
    key: &str,
    value: &str,
    after: SystemCommandRunner,
    env: &[(String, String)],
    more: &[(String, String)],
)
    requires
        call_ensures(SystemCommandRunner::env, (&before,), env),
        call_ensures(SystemCommandRunner::with_env, (before, key, value), after),
        call_ensures(SystemCommandRunner::env, (&after,), more),
    ensures
        more@.len() == env@.len() + 1,
        more@.last().0@ == key@,
        more@.last().1@ == value@,
        forall|i: int|
            0 <= i < env@.len() ==> (#[trigger] more@[i]).0@ == env@[i].0@ && more@[i].1@
                == env@[i].1@,
{
    assert(more@.last() == more@[more@.len() - 1]);
}

/// A session is opened under the name that it was given, on black, and with as many surfaces as
/// it was told to draw; its start is waited for five times.
pub proof fn law_session_is_opened_as_told(
    name: &str,
    usual: Result<XrVulkanRuntime, Error>,
    surfaces: u32,
    told: XrVulkanRuntime,
    told_name: &str,
    told_surfaces: u32,
    background: Background,
)
    requires
        call_ensures(XrVulkanRuntime::new, (name,), usual),
        usual is Ok ==> call_ensures(
            XrVulkanRuntime::with_max_surfaces,
            (usual->Ok_0, surfaces),
            told,
        ),
        call_ensures(XrVulkanRuntime::application_name, (&told,), told_name),
        call_ensures(XrVulkanRuntime::max_surfaces, (&told,), told_surfaces),
        call_ensures(XrVulkanRuntime::background, (&told,), background),
    ensures
        usual is Ok,
        told_name@ == name@,
        told_surfaces == surfaces,
        background == Background::Black,
        told.wait().retries() == 5,
{
}

/// A frame gives back the parts that it was made of. It can be made exactly where it has pixels,
/// a row holds its pixels of four bytes each, and the bytes are those of all rows.
pub proof fn law_frame_gives_its_parts_back(
    origin: FrameOrigin,
    format: PixelFormat,
    width_px: u32,
    height_px: u32,
    stride_bytes: u32,
    captured_at: UtcTimestamp,
    pixels: Vec<u8>,
    made: Result<Frame, Error>,
    sizes: (u32, u32, u32),
    told: (FrameOrigin, PixelFormat, UtcTimestamp),
    bytes: &[u8],
    genuine: bool,
)
    requires
        call_ensures(
            Frame::new,
            (origin, format, width_px, height_px, stride_bytes, captured_at, pixels),
            made,
        ),
        made matches Ok(frame) ==> {
            &&& call_ensures(Frame::width_px, (&frame,), sizes.0)
            &&& call_ensures(Frame::height_px, (&frame,), sizes.1)
            &&& call_ensures(Frame::stride_bytes, (&frame,), sizes.2)
            &&& call_ensures(Frame::origin, (&frame,), told.0)
            &&& call_ensures(Frame::format, (&frame,), told.1)
            &&& call_ensures(Frame::captured_at, (&frame,), told.2)
            &&& call_ensures(Frame::pixels, (&frame,), bytes)
            &&& call_ensures(Frame::is_real_capture, (&frame,), genuine)
        },
    ensures
        made is Ok ==> {
            &&& sizes == (width_px, height_px, stride_bytes)
            &&& told == (origin, format, captured_at)
            &&& bytes@ == pixels@
            &&& genuine <==> origin == FrameOrigin::RealCapture
        },
{
}

/// A button of a hand goes down or up on the display as it does in the hand.
pub proof fn law_press_is_handed_on_as_it_is(state: PressState, r: ButtonState)
    requires
        call_ensures(PressState::to_input_state, (state,), r),
    ensures
        r == ButtonState::Pressed <==> state == PressState::Pressed,
        r == ButtonState::Released <==> state == PressState::Released,
{
}

/// Every frame is the one panel before a black that lets nothing through.
pub proof fn law_frame_is_one_panel_on_black<S, P>(
    panel: Panel<S, P>,
    config: SessionConfig<S, P>,
    plan: CompositionPlan,
    layers: u8,
    black: bool,
)
    requires
        call_ensures(SessionConfig::<S, P>::for_panel, (panel,), config),
        call_ensures(CompositionPlan::for_session::<S, P>, (&config,), plan),
        call_ensures(CompositionPlan::panel_layer_count, (&plan,), layers),
        call_ensures(CompositionPlan::background_is_opaque_black, (&plan,), black),
    ensures
        config.panel@ == panel@,
        plan.background == Background::Black,
        layers == 1,
        black,
{
}

/// A source of one colour makes frames in which every byte is that colour, of the extent that
/// it was made with.
pub proof fn law_solid_frame_is_of_one_colour(
    source: &mut SolidColourFrameSource,
    output: OutputId,
    r: Result<Frame, Error>,
)
    requires
        call_ensures(<SolidColourFrameSource as FrameSource>::capture, (source, &output), r),
    ensures
        r matches Ok(frame) ==> {
            &&& frame@.width_px == old(source).width_px
            &&& frame@.height_px == old(source).height_px
            &&& frame@.origin == FrameOrigin::TestDouble
            &&& frame@.captured_at == old(source).captured_at
            &&& forall|i: int|
                0 <= i < frame@.pixels.len() ==> #[trigger] frame@.pixels[i] == old(source).fill
        },
        final(source).captures().len() == old(source).captures().len() + 1,
        final(source).captures().last().output == output@,
{
}

} // verus!
