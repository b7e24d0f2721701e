//! What the small parts promise: lines, errors, numbers, texts and what stands in for others.

use vstd::prelude::*;

use crate::compositor::journal::{journal_entry, wrote, Journal};
use crate::display::hyprland::laws::{lemma_decimal_is_spelled, spells};
use crate::display::{
    assert_runtime_only, HostOp, HostOpKind, OutputId, OutputRelease, VirtualOutput,
};
use crate::error::{Details, Error, ErrorCode, IntoDetail};
use crate::frame::{Frame, FrameOrigin, PixelFormat};
use crate::id::{IdView, TraceId};
use crate::input::testing::RecordingSink;
use crate::input::{Delivery, KeyEvent, KeyboardSink, PointerEvent, PointerSink};
use crate::json::{
    escaped, field_text, fields_text, items_text, json_text, quoted, JsonFields, JsonValue,
    JsonView,
};
use crate::log::{Level, LineView, LogRecord, LogSink, LogView};
use crate::panel::cursor::PixelPoint;
use crate::panel::testing::{GridGeometry, GridPoint, GridPose, GridSize};
use crate::panel::{Geometry, PanelResolution};
use crate::render::probe::tiled_frame;
use crate::render::shaders::{compiler_args, is_glslc, names_to_try, places_to_look};
use crate::retry::{Backoff, RetryPolicy};
use crate::scan::pieces;
use crate::scope::{check_v1_scope, Feature};
use crate::testing::texts;
use crate::time::{Clock, UtcTimestamp};

pub mod reports;
pub mod values;

verus! {

broadcast use vstd::seq::group_seq_axioms;

/// The fields of a record, by its parts.
pub open spec fn log_fields(
    millis: int,
    level: Seq<char>,
    trace: Option<Seq<char>>,
    msg: Seq<char>,
) -> Seq<(Seq<char>, JsonView)> {
    seq![
        ("ts"@, JsonView::Int(millis)),
        ("level"@, JsonView::Text(level)),
        (
            "trace_id"@,
            match trace {
                Some(text) => JsonView::Text(text),
                None => JsonView::Null,
            },
        ),
        ("msg"@, JsonView::Text(msg)),
    ]
}

/// The line of a record, by its parts.
pub open spec fn log_line(
    millis: int,
    level: Seq<char>,
    trace: Option<Seq<char>>,
    msg: Seq<char>,
) -> Seq<char> {
    json_text(JsonView::Object(log_fields(millis, level, trace, msg)))
}

/// The text of a trace.
pub open spec fn trace_text(trace: Option<IdView>) -> Option<Seq<char>> {
    match trace {
        Some(id) => Some(id.text),
        None => None,
    }
}

proof fn lemma_line(record: LogView)
    ensures
        record.line() == log_line(
            record.ts.millis() as int,
            record.level.name(),
            trace_text(record.trace_id),
            record.msg,
        ),
{
    assert(record.fields() =~= log_fields(
        record.ts.millis() as int,
        record.level.name(),
        trace_text(record.trace_id),
        record.msg,
    ));
}

/// Whether one line was added, of the given level and message, at a time that the clock may
/// have said.
pub open spec fn told<C: Clock>(
    clock: C,
    before: Seq<LineView>,
    after: Seq<LineView>,
    level: Seq<char>,
    trace: Option<IdView>,
    msg: Seq<char>,
) -> bool {
    &&& after.len() == before.len() + 1
    &&& after.drop_last() == before
    &&& exists|ts: UtcTimestamp| #[trigger]
        clock.may_say(ts) && after.last().line == log_line(
            ts.millis() as int,
            level,
            trace_text(trace),
            msg,
        )
}

pub(crate) proof fn lemma_told<C: Clock>(
    clock: C,
    before: Seq<LineView>,
    after: Seq<LineView>,
    level: Level,
    trace_id: Option<IdView>,
    msg: Seq<char>,
)
    requires
        wrote(clock, before, after, level, trace_id, msg),
    ensures
        told(clock, before, after, level.name(), trace_id, msg),
{
    lemma_wrote(clock, before, after, level, trace_id, msg);
}

proof fn lemma_wrote<C: Clock>(
    clock: C,
    before: Seq<LineView>,
    after: Seq<LineView>,
    level: Level,
    trace_id: Option<IdView>,
    msg: Seq<char>,
)
    requires
        wrote(clock, before, after, level, trace_id, msg),
    ensures
        after.len() == before.len() + 1,
        after.drop_last() == before,
        exists|ts: UtcTimestamp| #[trigger]
            clock.may_say(ts) && after.last().line == log_line(
                ts.millis() as int,
                level.name(),
                trace_text(trace_id),
                msg,
            ),
{
    let ts = choose|ts: UtcTimestamp|
        {
            &&& #[trigger] clock.may_say(ts)
            &&& after == before.push(
                LineView {
                    line: journal_entry(ts, level, trace_id, msg).line(),
                    outcome: after.last().outcome,
                },
            )
        };
    lemma_line(journal_entry(ts, level, trace_id, msg));
    assert(clock.may_say(ts));
    assert(after.drop_last() =~= before);
}

/// A record is written out as the JSON object of its time, its level by name, its trace and its
/// message, in this order.
pub proof fn law_record_is_written_out(
    ts: UtcTimestamp,
    level: Level,
    trace_id: TraceId,
    msg: &str,
    record: LogRecord,
    r: String,
)
    requires
        call_ensures(LogRecord::new, (ts, level, trace_id, msg), record),
        call_ensures(LogRecord::to_line, (&record,), r),
    ensures
        level is Debug ==> r@ == log_line(ts.millis() as int, "debug"@, trace_text(trace_id@), msg@),
        level is Info ==> r@ == log_line(ts.millis() as int, "info"@, trace_text(trace_id@), msg@),
        level is Warn ==> r@ == log_line(ts.millis() as int, "warn"@, trace_text(trace_id@), msg@),
        level is Error ==> r@ == log_line(ts.millis() as int, "error"@, trace_text(trace_id@), msg@),
{
    lemma_line(record@);
}

/// A journal writes one line for each call, at the level that the call says, at a time that its
/// clock may have said, under its own trace and with the message as it is; a failure is written
/// as an error: what was tried, a colon, and why it failed. The sink's answer is handed on.
pub proof fn law_journal_writes_one_line<C: Clock, L: LogSink>(
    informed: &mut Journal<C, L>,
    warned: &mut Journal<C, L>,
    failed: &mut Journal<C, L>,
    noted: &mut Journal<C, L>,
    msg: &str,
    cause: Error,
    info_r: Result<(), Error>,
    warn_r: Result<(), Error>,
    error_r: Result<(), Error>,
    note_r: Result<(), Error>,
)
    requires
        call_ensures(Journal::<C, L>::info, (informed, msg), info_r),
        call_ensures(Journal::<C, L>::warn, (warned, msg), warn_r),
        call_ensures(Journal::<C, L>::error, (failed, msg), error_r),
        call_ensures(Journal::<C, L>::note_failure, (noted, msg, &cause), note_r),
    ensures
        final(informed).lines().len() == old(informed).lines().len() + 1,
        final(informed).lines().drop_last() == old(informed).lines(),
        final(informed).trace() == old(informed).trace(),
        final(informed).lines().last().outcome is Ok <==> info_r is Ok,
        exists|ts: UtcTimestamp| #[trigger]
            old(informed).clock().may_say(ts) && final(informed).lines().last().line == log_line(
                ts.millis() as int,
                "info"@,
                trace_text(old(informed).trace()),
                msg@,
            ),
        exists|ts: UtcTimestamp| #[trigger]
            old(warned).clock().may_say(ts) && final(warned).lines().last().line == log_line(
                ts.millis() as int,
                "warn"@,
                trace_text(old(warned).trace()),
                msg@,
            ),
        exists|ts: UtcTimestamp| #[trigger]
            old(failed).clock().may_say(ts) && final(failed).lines().last().line == log_line(
                ts.millis() as int,
                "error"@,
                trace_text(old(failed).trace()),
                msg@,
            ),
        exists|ts: UtcTimestamp| #[trigger]
            old(noted).clock().may_say(ts) && final(noted).lines().last().line == log_line(
                ts.millis() as int,
                "error"@,
                trace_text(old(noted).trace()),
                msg@ + ": "@ + cause@.message,
            ),
{
    lemma_wrote(
        informed.clock(),
        informed.lines(),
        final(informed).lines(),
        Level::Info,
        informed.trace(),
        msg@,
    );
    lemma_wrote(
        warned.clock(),
        warned.lines(),
        final(warned).lines(),
        Level::Warn,
        warned.trace(),
        msg@,
    );
    lemma_wrote(
        failed.clock(),
        failed.lines(),
        final(failed).lines(),
        Level::Error,
        failed.trace(),
        msg@,
    );
    lemma_wrote(
        noted.clock(),
        noted.lines(),
        final(noted).lines(),
        Level::Error,
        noted.trace(),
        msg@ + ": "@ + cause@.message,
    );
}

/// Scalars are written as they are: the three words, numbers in digits with a sign before a
/// negative one, and texts between quotation marks.
pub proof fn law_scalars_are_written_as_they_are(value: JsonValue, r: String)
    requires
        call_ensures(JsonValue::render, (&value,), r),
    ensures
        value is Null ==> r@ == "null"@,
        value matches JsonValue::Bool(b) ==> r@ == (if b {
            "true"@
        } else {
            "false"@
        }),
        value matches JsonValue::Int(n) ==> (n >= 0 ==> spells(r@, n as nat)) && (n < 0 ==> {
            &&& r@.len() > 1
            &&& r@[0] == '-'
            &&& spells(r@.skip(1), (-n) as nat)
        }),
        value matches JsonValue::Text(s) ==> {
            &&& r@.len() >= 2
            &&& r@[0] == '"'
            &&& r@.last() == '"'
            &&& r@.subrange(1, r@.len() - 1) == escaped(s@)
        },
{
    match value {
        JsonValue::Int(n) => {
            if n < 0 {
                lemma_decimal_is_spelled((-n) as nat);
                assert(r@.skip(1) =~= crate::text::decimal((-n) as nat));
            } else {
                lemma_decimal_is_spelled(n as nat);
            }
        },
        JsonValue::Text(s) => {
            assert(r@ == quoted(s@));
            assert(r@.subrange(1, r@.len() - 1) =~= escaped(s@));
        },
        _ => {},
    }
}

/// An array is written item by item: an empty one as two brackets, and one with another item
/// as the one before it with a comma, if it had items, and that item before its last bracket.
pub proof fn law_arrays_are_written_item_by_item(
    before: Vec<JsonValue>,
    after: Vec<JsonValue>,
    item: JsonValue,
    short: String,
    long: String,
    last: String,
)
    requires
        after@ == before@.push(item),
        call_ensures(JsonValue::render, (&JsonValue::Array(before),), short),
        call_ensures(JsonValue::render, (&JsonValue::Array(after),), long),
        call_ensures(JsonValue::render, (&item,), last),
    ensures
        before@.len() == 0 ==> short@ == seq!['[', ']'] && long@ == seq!['['] + last@ + seq![']'],
        before@.len() > 0 ==> long@ == short@.drop_last() + seq![','] + last@ + seq![']'],
{
    let a = JsonValue::Array(before)@->Array_0;
    let b = JsonValue::Array(after)@->Array_0;
    assert(b =~= a.push(item@));
    assert(b.drop_last() =~= a);
    assert(b.last() == item@);
    assert(long@ == seq!['['] + items_text(b) + seq![']']);
    assert(short@ == seq!['['] + items_text(a) + seq![']']);
    if before@.len() == 0 {
        assert(short@ =~= seq!['[', ']']);
        assert(items_text(b) == last@);
    } else {
        assert(items_text(b) == items_text(a) + seq![','] + last@);
        assert(long@ =~= short@.drop_last() + seq![','] + last@ + seq![']']);
    }
}

/// An object is written field by field, in the order in which they were given.
pub proof fn law_objects_are_written_field_by_field(
    before: JsonFields,
    after: JsonFields,
    key: &str,
    value: JsonValue,
    small: JsonValue,
    large: JsonValue,
    short: String,
    long: String,
    name: String,
    last: String,
)
    requires
        call_ensures(JsonFields::with, (before, key, value), after),
        call_ensures(JsonFields::into_object, (before,), small),
        call_ensures(JsonFields::into_object, (after,), large),
        call_ensures(JsonValue::render, (&small,), short),
        call_ensures(JsonValue::render, (&large,), long),
        name@ == quoted(key@),
        call_ensures(JsonValue::render, (&value,), last),
    ensures
        before@.len() == 0 ==> short@ == seq!['{', '}'] && long@ == seq!['{'] + name@ + seq![':']
            + last@ + seq!['}'],
        before@.len() > 0 ==> long@ == short@.drop_last() + seq![','] + name@ + seq![':'] + last@
            + seq!['}'],
{
    let a = before@;
    let b = after@;
    assert(b.drop_last() =~= a);
    assert(b.last() == (key@, value@));
    assert(long@ == seq!['{'] + fields_text(b) + seq!['}']);
    assert(short@ == seq!['{'] + fields_text(a) + seq!['}']);
    assert(field_text(b.last()) == name@ + seq![':'] + last@);
    if a.len() == 0 {
        assert(short@ =~= seq!['{', '}']);
        assert(fields_text(b) == field_text(b.last()));
        assert(long@ =~= seq!['{'] + name@ + seq![':'] + last@ + seq!['}']);
    } else {
        assert(fields_text(b) == fields_text(a) + seq![','] + field_text(b.last()));
        assert(long@ =~= short@.drop_last() + seq![','] + name@ + seq![':'] + last@ + seq!['}']);
    }
}

/// An error keeps the parts that it was made of, and a cause beside them that it does not show.
pub proof fn law_error_keeps_its_parts(
    code: ErrorCode,
    message: &str,
    trace_id: TraceId,
    cause: &str,
    bare: Error,
    caused: Error,
    told_code: ErrorCode,
    told_message: &str,
    told_source: Option<&str>,
    none: Option<&str>,
    text: String,
    bare_text: String,
)
    requires
        call_ensures(Error::new, (code, message, trace_id), bare),
        call_ensures(Error::caused_by, (bare, cause), caused),
        call_ensures(Error::code, (&caused,), told_code),
        call_ensures(Error::message, (&caused,), told_message),
        call_ensures(Error::source, (&caused,), told_source),
        call_ensures(Error::source, (&bare,), none),
        call_ensures(Error::to_text, (&caused,), text),
        call_ensures(Error::to_text, (&bare,), bare_text),
    ensures
        told_code == code,
        told_message@ == message@,
        told_source matches Some(s) && s@ == cause@,
        none is None,
        caused@.trace_id == trace_id@,
        caused@.details.len() == 0,
        text@ == bare_text@,
        code is InvalidArgument ==> text@ == "invalid_argument"@ + ": "@ + message@,
        code is Unsupported ==> text@ == "unsupported"@ + ": "@ + message@,
        code is CapabilityUnavailable ==> text@ == "capability_unavailable"@ + ": "@ + message@,
        code is HostRefused ==> text@ == "host_refused"@ + ": "@ + message@,
        code is ResourceReleaseFailed ==> text@ == "resource_release_failed"@ + ": "@ + message@,
        code is Internal ==> text@ == "internal"@ + ": "@ + message@,
{
}

/// A detail that is set is there, under its key and once; the others stay, in order.
pub proof fn law_detail_is_set_once<V: IntoDetail>(
    details: &mut Details,
    key: &str,
    value: V,
    at: int,
)
    requires
        call_ensures(Details::insert::<V>, (details, key, value), ()),
        0 <= at <= details@.len(),
        at < details@.len() ==> details@[at].0 == key@,
        forall|i: int| 0 <= i < at ==> (#[trigger] details@[i]).0 != key@,
    ensures
        at < old(details)@.len() ==> final(details)@ == old(details)@.update(
            at,
            (key@, value.detail()),
        ),
        at == old(details)@.len() ==> final(details)@ == old(details)@.push((key@, value.detail())),
{
    crate::error::lemma_entry_position_is(details@, key@, at);
}

/// An operation that outlives the process is refused, and nothing else is.
pub proof fn law_lasting_changes_are_refused(ops: &[HostOp], r: Result<(), Error>)
    requires
        call_ensures(assert_runtime_only, (ops,), r),
    ensures
        r is Err <==> exists|i: int|
            0 <= i < ops@.len() && (#[trigger] ops@[i]).kind is PersistentConfiguration,
{
    if r is Err {
        let e = r->Err_0;
        assert(!crate::display::runtime_only(ops@));
        let i = choose|i: int|
            0 <= i < ops@.len() && (#[trigger] ops@[i]).kind != HostOpKind::Runtime;
        assert(ops@[i].kind is PersistentConfiguration);
    }
}

/// An output is given back once: a scope that ends gives it back, and one that ends again asks
/// nothing of the host.
pub proof fn law_output_is_given_back_once<R: OutputRelease>(
    id: OutputId,
    output: VirtualOutput,
    first: &mut VirtualOutput,
    second: &mut VirtualOutput,
    before: &mut R,
    after: &mut R,
)
    requires
        call_ensures(VirtualOutput::new, (id,), output),
        *first == output,
        call_ensures(VirtualOutput::release_at_scope_end::<R>, (first, before), ()),
        *second == *final(first),
        *after == *final(before),
        call_ensures(VirtualOutput::release_at_scope_end::<R>, (second, after), ()),
    ensures
        final(before).asked().len() == old(before).asked().len() + 1,
        final(before).asked().last().output == id@,
        final(after).asked() == final(before).asked(),
{
}

/// The first version has one panel, a display and input for it; whatever else is asked for is
/// refused.
pub proof fn law_first_version_has_six_features(requested: &[Feature], r: Result<(), Error>)
    requires
        call_ensures(check_v1_scope, (requested,), r),
    ensures
        r is Ok <==> forall|i: int|
            0 <= i < requested@.len() ==> {
                ||| (#[trigger] requested@[i]) is SinglePanel
                ||| requested@[i] is PanelShowsLinuxDisplay
                ||| requested@[i] is PanelGrabReposition
                ||| requested@[i] is CursorOnPanel
                ||| requested@[i] is ClickDeliveredToLinux
                ||| requested@[i] is KeyInputDeliveredToLinux
            },
{
    if r is Ok {
        assert forall|i: int| 0 <= i < requested@.len() implies {
            ||| (#[trigger] requested@[i]) is SinglePanel
            ||| requested@[i] is PanelShowsLinuxDisplay
            ||| requested@[i] is PanelGrabReposition
            ||| requested@[i] is CursorOnPanel
            ||| requested@[i] is ClickDeliveredToLinux
            ||| requested@[i] is KeyInputDeliveredToLinux
        } by {
            assert(!requested@[i].excluded());
        }
    } else {
        let i = choose|i: int| 0 <= i < requested@.len() && (#[trigger] requested@[i]).excluded();
        assert(requested@[i].excluded());
    }
}

/// A policy retries as often as it is told, which is five times at most.
pub proof fn law_policies_retry_five_times_at_most(
    max_retries: u8,
    backoff: Backoff,
    r: Result<RetryPolicy, Error>,
    attempts: u8,
    again: bool,
)
    requires
        call_ensures(RetryPolicy::new, (max_retries, backoff), r),
        r is Ok ==> call_ensures(RetryPolicy::should_retry, (r->Ok_0, attempts), again),
    ensures
        r is Ok <==> max_retries <= 5,
        r is Ok ==> (again <==> attempts < max_retries),
        r matches Ok(p) ==> p.wait() == backoff,
{
}

/// A point after the epoch is as many milliseconds as it is told, one before it as many less
/// than nought, and one too far away stands at the end of its side.
pub proof fn law_distance_from_the_epoch_is_kept(
    distance: u128,
    after: UtcTimestamp,
    before: UtcTimestamp,
)
    requires
        call_ensures(UtcTimestamp::from_epoch_distance, (Ok(distance),), after),
        call_ensures(UtcTimestamp::from_epoch_distance, (Err(distance),), before),
    ensures
        distance <= i64::MAX ==> after.millis() == distance && before.millis() + distance == 0,
        distance > i64::MAX ==> after.millis() == i64::MAX && before.millis() == i64::MIN,
{
}

/// A sink that records takes every event once, by its key, whichever kind it is.
pub proof fn law_recording_sink_takes_each_key_once(
    first: &mut RecordingSink,
    second: &mut RecordingSink,
    pointed: PointerEvent,
    typed: KeyEvent,
    once: Result<Delivery, Error>,
    again: Result<Delivery, Error>,
)
    requires
        call_ensures(<RecordingSink as PointerSink>::deliver, (first, &pointed), once),
        *second == *final(first),
        typed.idempotency_key@.text == pointed.idempotency_key@.text,
        call_ensures(<RecordingSink as KeyboardSink>::deliver, (second, &typed), again),
    ensures
        once is Ok,
        again is Ok,
        again->Ok_0 is DuplicateIgnored,
        final(second).kept_keys() == old(second).kept_keys(),
        once->Ok_0 is Delivered ==> final(first).kept_pointer() == old(first).kept_pointer().push(
            pointed@,
        ),
        once->Ok_0 is DuplicateIgnored ==> final(first).kept_pointer() == old(
            first,
        ).kept_pointer(),
        once->Ok_0 is DuplicateIgnored <==> old(first).seen_keys().contains(
            pointed.idempotency_key@.text,
        ),
{
    let key = pointed.idempotency_key@.text;
    let seen = final(first).seen_keys();
    if !first.seen_keys().contains(key) {
        assert(seen.last() == key);
        assert(seen.contains(key));
    }
}

/// On the grid, a panel that is taken moves as far as the hand that holds it, along every axis.
pub proof fn law_grid_panel_moves_with_the_hand(
    hand: GridPose,
    panel: GridPose,
    later: GridPose,
    offset: GridPose,
    carried: GridPose,
)
    requires
        call_ensures(<GridGeometry as Geometry>::offset_of, (hand, panel), offset),
        call_ensures(<GridGeometry as Geometry>::carry, (later, offset), carried),
    ensures
        (carried.x - panel.x - (later.x - hand.x)) % 0x1_0000 == 0,
        (carried.y - panel.y - (later.y - hand.y)) % 0x1_0000 == 0,
        (carried.z - panel.z - (later.z - hand.z)) % 0x1_0000 == 0,
{
}

/// On the grid, the upper left corner of a panel is its first pixel, columns grow to the right
/// and rows downwards, and a panel covers its points up to its edges.
pub proof fn law_grid_pixels_count_from_the_corner(
    size: GridSize,
    resolution: PanelResolution,
    point: GridPoint,
    px: PixelPoint,
    covered: bool,
)
    requires
        call_ensures(<GridGeometry as Geometry>::pixel_of, (size, resolution, point), px),
        call_ensures(<GridGeometry as Geometry>::is_covered, (size, point), covered),
        -0x1_0000 <= point.u <= 0x1_0000,
        -0x1_0000 <= point.v <= 0x1_0000,
    ensures
        px.x == point.u + size.half_width,
        px.y == size.half_height - point.v,
        covered <==> 0 <= px.x <= 2 * size.half_width && 0 <= px.y <= 2 * size.half_height,
{
}

/// The picture that is shown has a white rim two pixels wide, and within it fields of sixteen
/// by sixteen that take turns: in one kind the blue runs with the column, in the other the green
/// with the row, both moved on by the phase. It is made up, no capture, and opaque.
pub proof fn law_shown_picture_has_a_rim_and_fields(
    at: UtcTimestamp,
    phase: u32,
    r: Result<Frame, Error>,
    x: int,
    y: int,
)
    requires
        phase <= u32::MAX - 253,
        call_ensures(tiled_frame, (at, phase), r),
        0 <= x < 256,
        0 <= y < 144,
    ensures
        r is Ok,
        ({
            let f = r->Ok_0@;
            let here = 1024 * y + 4 * x;
            let rim = x < 2 || x > 253 || y < 2 || y > 141;
            let even = (x / 16 + y / 16) % 2 == 0;
            &&& f.origin == FrameOrigin::TestDouble
            &&& f.width_px == 256 && f.height_px == 144 && f.stride_bytes == 1024
            &&& f.format == PixelFormat::Xrgb8888
            &&& f.captured_at == at
            &&& f.pixels.len() == 256 * 144 * 4
            &&& f.pixels[here + 3] == 255
            &&& rim ==> f.pixels[here] == 255 && f.pixels[here + 1] == 255 && f.pixels[here + 2]
                == 255
            &&& !rim && even ==> {
                &&& (x + phase - f.pixels[here]) % 256 == 0
                &&& f.pixels[here + 1] == 40
                &&& f.pixels[here + 2] == 90
            }
            &&& !rim && !even ==> {
                &&& f.pixels[here] == 20
                &&& (y + phase - f.pixels[here + 1]) % 256 == 0
                &&& f.pixels[here + 2] == 30
            }
        }),
{
    let here = 1024 * y + 4 * x;
    assert(here / 4 == 256 * y + x && (here + 1) / 4 == 256 * y + x);
    assert((here + 2) / 4 == 256 * y + x && (here + 3) / 4 == 256 * y + x);
    assert((256 * y + x) % 256 == x && (256 * y + x) / 256 == y);
}

proof fn lemma_pieces_of_one_more(s: Seq<char>, separator: char, part: Seq<char>)
    requires
        forall|i: int| 0 <= i < part.len() ==> part[i] != separator,
    ensures
        pieces(s + seq![separator] + part, separator) == pieces(s, separator).push(part),
    decreases part.len(),
{
    let all = s + seq![separator] + part;
    if part.len() == 0 {
        assert(all.drop_last() =~= s);
        assert(all.last() == separator);
        assert(part =~= Seq::<char>::empty());
    } else {
        let shorter = part.drop_last();
        lemma_pieces_of_one_more(s, separator, shorter);
        assert(all.drop_last() =~= s + seq![separator] + shorter);
        assert(all.last() == part.last());
        assert(shorter.push(part.last()) =~= part);
        assert(pieces(all, separator) =~= pieces(s, separator).push(part));
    }
}

/// A tool is looked for at its own name where that leads somewhere, and else in the directories
/// of the search path, one after the other: a directory at the end of the path adds the file of
/// that name in it, and one without a name adds nothing. Without a path there is no place.
pub proof fn law_directories_are_searched_in_order(
    name: &str,
    path: &str,
    longer: &str,
    directory: Seq<char>,
    none: Vec<String>,
    places: Vec<String>,
    more: Vec<String>,
)
    requires
        call_ensures(places_to_look, (name, None), none),
        call_ensures(places_to_look, (name, Some(path)), places),
        call_ensures(places_to_look, (name, Some(longer)), more),
        longer@ == path@ + seq![':'] + directory,
        forall|i: int| 0 <= i < directory.len() ==> directory[i] != ':',
    ensures
        name@.contains('/') ==> texts(none@) == seq![name@] && texts(places@) == seq![name@],
        !name@.contains('/') ==> {
            &&& none@.len() == 0
            &&& directory.len() == 0 ==> texts(more@) == texts(places@)
            &&& directory.len() > 0 && directory.last() == '/' ==> texts(more@) == texts(
                places@,
            ).push(directory + name@)
            &&& directory.len() > 0 && directory.last() != '/' ==> texts(more@) == texts(
                places@,
            ).push(directory + seq!['/'] + name@)
        },
{
    if name@.contains('/') {
        let i = choose|i: int| 0 <= i < name@.len() && name@[i] == '/';
        assert(crate::render::shaders::holds(name@, '/'));
    } else {
        if crate::render::shaders::holds(name@, '/') {
            let i = choose|i: int| 0 <= i < name@.len() && name@[i] == '/';
            assert(name@.contains(name@[i]));
        }
        assert(texts(none@).len() == none@.len());
        lemma_pieces_of_one_more(path@, ':', directory);
        let short = pieces(path@, ':');
        let long = pieces(longer@, ':');
        let n = short.len() as int;
        lemma_same_files(short, long, name@, n);
        assert(long[n] == directory);
        reveal_strlit("/");
        assert("/"@ =~= seq!['/']);
    }
}

proof fn lemma_same_files(a: Seq<Seq<char>>, b: Seq<Seq<char>>, name: Seq<char>, count: int)
    requires
        count <= a.len(),
        count <= b.len(),
        forall|i: int| 0 <= i < count ==> #[trigger] a[i] == b[i],
    ensures
        crate::render::shaders::files_in(a, name, count) == crate::render::shaders::files_in(
            b,
            name,
            count,
        ),
    decreases count,
{
    if count > 0 {
        lemma_same_files(a, b, name, count - 1);
        assert(a[count - 1] == b[count - 1]);
    }
}

/// A compiler is asked for the source that is given, into the file that is given, for the first
/// version of the graphics interface; one kind is told the stage too.
pub proof fn law_compiler_is_asked_for_the_source(
    compiler: &str,
    source: &str,
    result: &str,
    stage: &str,
    other: bool,
    r: Vec<String>,
)
    requires
        call_ensures(is_glslc, (compiler,), other),
        call_ensures(compiler_args, (compiler, source, result, stage), r),
    ensures
        r@.len() == (if other {
            5
        } else {
            6int
        }),
        texts(r@).skip(r@.len() - 3) == seq!["-o"@, result@, source@],
        other ==> r@[0]@ == "-fshader-stage="@ + stage@ && r@[1]@ == "--target-env="@
            + "vulkan1.0"@,
        !other ==> r@[0]@ == "-V"@ && r@[1]@ == "--target-env"@ && r@[2]@ == "vulkan1.0"@,
{
    let words = texts(r@);
    assert(words.len() == r@.len());
    assert(words.skip(words.len() - 3) =~= seq!["-o"@, result@, source@]);
    assert(words[0] == r@[0]@ && words[1] == r@[1]@ && words[2] == r@[2]@);
}

/// A tool goes by the name that it was given, or by all that are usual; an empty name means none.
pub proof fn law_tool_goes_by_its_given_name(
    given: &str,
    usual: &[&str],
    named: Vec<String>,
    unnamed: Vec<String>,
)
    requires
        call_ensures(names_to_try, (Some(given), usual), named),
        call_ensures(names_to_try, (None, usual), unnamed),
    ensures
        given@.len() == 0 ==> named@.len() == 0,
        given@.len() > 0 ==> named@.len() == 1 && named@[0]@ == given@,
        unnamed@.len() == usual@.len(),
        forall|i: int| 0 <= i < usual@.len() ==> (#[trigger] unnamed@[i])@ == usual@[i]@,
{
    assert(texts(named@).len() == named@.len());
    assert(texts(unnamed@).len() == unnamed@.len());
    if given@.len() > 0 {
        assert(texts(named@)[0] == named@[0]@);
    }
    assert forall|i: int| 0 <= i < usual@.len() implies (#[trigger] unnamed@[i])@ == usual@[i]@ by {
        assert(texts(unnamed@)[i] == unnamed@[i]@);
    }
}

} // verus!
