//! When a run ends and what it counts, told by what goes in and comes out.

use vstd::prelude::*;

use super::{
    clients_in, client_command, frame_time_ms, headless_round_begins, headless_run_ends,
    law_most_windows, most_windows, nested_step, pump_turn, rounds_in,
    ClientCommand, HeadlessOptions, HeadlessOutcome, NestedOutcome, NestedStep, PumpTurn,
    RunEvent, RunTally,
};
use crate::json::{escaped, field_text, fields_text, json_text, quoted, JsonView};
use crate::testing::texts;
use crate::text::decimal;

verus! {

/// A nested run ends for one of three reasons, the first that holds: it was stopped, a signal
/// came, or its time is over. Without any it goes on, and without a limit its time is never
/// over.
pub proof fn law_nested_run_ends_for_the_first_reason(
    running: bool,
    interrupted: bool,
    elapsed_millis: u128,
    limit_millis: Option<u128>,
    r: NestedStep,
)
    requires
        call_ensures(nested_step, (running, interrupted, elapsed_millis, limit_millis), r),
    ensures
        r is Stopped <==> !running,
        r is Interrupted <==> running && interrupted,
        r is TimeLimit ==> limit_millis is Some && limit_millis->0 <= elapsed_millis,
        r is Proceed ==> limit_millis is None || elapsed_millis < limit_millis->0,
        r is TimeLimit || r is Proceed ==> running && !interrupted,
{
}

/// A headless run begins a round exactly while its time is not over, and ends before that only
/// where it is to end with the first window that shows something, and one does.
pub proof fn law_headless_run_ends_in_time(
    elapsed_millis: u128,
    options: HeadlessOptions,
    mapped_windows: usize,
    begins: bool,
    ends: bool,
)
    requires
        call_ensures(headless_round_begins, (elapsed_millis, &options), begins),
        call_ensures(headless_run_ends, (&options, mapped_windows), ends),
    ensures
        begins <==> elapsed_millis < options.run_for_millis,
        ends ==> options.stop_once_mapped && mapped_windows > 0,
        options.stop_once_mapped && mapped_windows > 0 ==> ends,
{
}

/// A pump is done once what it waits for is there, even late; else it gives up once its time
/// is over; else it sleeps.
pub proof fn law_pump_gives_up_in_time(
    ready: bool,
    elapsed_nanos: u128,
    limit_nanos: u128,
    r: PumpTurn,
)
    requires
        call_ensures(pump_turn, (ready, elapsed_nanos, limit_nanos), r),
    ensures
        r is Ready <==> ready,
        r is TimedOut <==> !ready && limit_nanos <= elapsed_nanos,
        r is Sleep <==> !ready && elapsed_nanos < limit_nanos,
{
}

spec fn tallied(events: Seq<RunEvent>, tallies: Seq<RunTally>) -> bool {
    &&& tallies.len() == events.len() + 1
    &&& tallies[0].counts(Seq::empty())
    &&& forall|i: int|
        #![trigger events[i]]
        0 <= i < events.len() ==> {
            &&& tallies[i + 1] == tallies[i].after(events[i])
            &&& events[i] is RoundBegins ==> tallies[i].rounds < u64::MAX
            &&& events[i] is ClientAccepted ==> tallies[i].clients_accepted < usize::MAX
        }
}

proof fn lemma_tallied(events: Seq<RunEvent>, tallies: Seq<RunTally>)
    requires
        tallied(events, tallies),
    ensures
        tallies.last().counts(events),
    decreases events.len(),
{
    let n = events.len() as int;
    if n > 0 {
        let earlier = events.drop_last();
        let before = tallies.drop_last();
        assert(tallied(earlier, before)) by {
            assert forall|i: int| #![trigger earlier[i]] 0 <= i < earlier.len() implies {
                &&& before[i + 1] == before[i].after(earlier[i])
                &&& earlier[i] is RoundBegins ==> before[i].rounds < u64::MAX
                &&& earlier[i] is ClientAccepted ==> before[i].clients_accepted < usize::MAX
            } by {
                assert(earlier[i] == events[i]);
            }
        }
        lemma_tallied(earlier, before);
        assert(tallies[n] == tallies[n - 1].after(events[n - 1]));
    } else {
        assert(events =~= Seq::<RunEvent>::empty());
    }
}

proof fn lemma_counted(events: Seq<RunEvent>)
    ensures
        rounds_in(events) == events.filter(|e: RunEvent| e is RoundBegins).len(),
        clients_in(events) == events.filter(|e: RunEvent| e is ClientAccepted).len(),
    decreases events.len(),
{
    reveal(Seq::filter);
    if events.len() > 0 {
        lemma_counted(events.drop_last());
    }
}

/// A tally that notes one event after the other has counted every round that began and every
/// client that was let in, and has kept the most windows that any round ended with.
pub proof fn law_tally_counts_what_happened(
    events: Seq<RunEvent>,
    tallies: Seq<RunTally>,
    calls: Seq<&mut RunTally>,
)
    requires
        tallies.len() == events.len() + 1,
        calls.len() == events.len(),
        call_ensures(RunTally::new, (), tallies[0]),
        forall|i: int|
            #![trigger calls[i]]
            0 <= i < events.len() ==> {
                &&& call_ensures(RunTally::note, (calls[i], events[i]), ())
                &&& *calls[i] == tallies[i]
                &&& *final(calls[i]) == tallies[i + 1]
                &&& events[i] is RoundBegins ==> tallies[i].rounds < u64::MAX
                &&& events[i] is ClientAccepted ==> tallies[i].clients_accepted < usize::MAX
            },
    ensures
        tallies.last().rounds == events.filter(|e: RunEvent| e is RoundBegins).len(),
        tallies.last().clients_accepted == events.filter(|e: RunEvent| e is ClientAccepted).len(),
        forall|i: int|
            0 <= i < events.len() && (#[trigger] events[i]) is RoundEnds ==> events[i]->windows
                <= tallies.last().toplevels_seen,
        tallies.last().toplevels_seen > 0 ==> events.contains(
            RunEvent::RoundEnds { windows: tallies.last().toplevels_seen },
        ),
{
    assert forall|i: int| #![trigger events[i]] 0 <= i < events.len() implies {
        &&& tallies[i + 1] == tallies[i].after(events[i])
        &&& events[i] is RoundBegins ==> tallies[i].rounds < u64::MAX
        &&& events[i] is ClientAccepted ==> tallies[i].clients_accepted < usize::MAX
    } by {
        let call = calls[i];
        assert(*final(call) == call.after(events[i]));
    }
    lemma_tallied(events, tallies);
    lemma_counted(events);
    law_most_windows(events);
    if tallies.last().toplevels_seen > 0 {
        let i = choose|i: int|
            0 <= i < events.len() && #[trigger] events[i] == (RunEvent::RoundEnds {
                windows: most_windows(events),
            });
        assert(events[i] == (RunEvent::RoundEnds { windows: tallies.last().toplevels_seen }));
    }
}

/// What a run comes to is what was counted, and it showed a window exactly where a client came,
/// asked for a window and showed something in one.
pub proof fn law_outcome_is_what_was_counted(
    socket: &str,
    tally: RunTally,
    mapped_windows: usize,
    nested: NestedOutcome,
    headless: HeadlessOutcome,
    showed: bool,
)
    requires
        call_ensures(NestedOutcome::of, (socket, tally, mapped_windows), nested),
        call_ensures(HeadlessOutcome::of, (socket, tally, mapped_windows), headless),
        call_ensures(HeadlessOutcome::a_client_actually_showed_a_window, (&headless,), showed),
    ensures
        nested.socket@ == socket@ && headless.socket@ == socket@,
        nested.frames == tally.rounds && headless.rounds == tally.rounds,
        nested.clients_accepted == tally.clients_accepted,
        headless.clients_accepted == tally.clients_accepted,
        nested.toplevels_seen == tally.toplevels_seen,
        headless.toplevels_seen == tally.toplevels_seen,
        nested.mapped_windows == mapped_windows && headless.mapped_windows == mapped_windows,
        showed <==> tally.clients_accepted > 0 && tally.toplevels_seen > 0 && mapped_windows > 0,
{
}

/// What is printed of a nested run is the JSON object of its numbers, for every socket whose
/// name needs no escapes.
pub proof fn law_nested_run_is_printed_as_json(outcome: NestedOutcome, r: String)
    requires
        call_ensures(NestedOutcome::to_line, (&outcome,), r),
        escaped(outcome.socket@) == outcome.socket@,
    ensures
        r@ == json_text(
            JsonView::Object(
                seq![
                    ("socket"@, JsonView::Text(outcome.socket@)),
                    ("frames"@, JsonView::Int(outcome.frames as int)),
                    ("clients_accepted"@, JsonView::Int(outcome.clients_accepted as int)),
                    ("toplevels_seen"@, JsonView::Int(outcome.toplevels_seen as int)),
                    ("mapped_windows"@, JsonView::Int(outcome.mapped_windows as int)),
                ],
            ),
        ),
{
    let o = outcome;
    let fields = seq![
        ("socket"@, JsonView::Text(o.socket@)),
        ("frames"@, JsonView::Int(o.frames as int)),
        ("clients_accepted"@, JsonView::Int(o.clients_accepted as int)),
        ("toplevels_seen"@, JsonView::Int(o.toplevels_seen as int)),
        ("mapped_windows"@, JsonView::Int(o.mapped_windows as int)),
    ];
    let f1 = seq![fields[0]];
    let f2 = f1.push(fields[1]);
    let f3 = f2.push(fields[2]);
    let f4 = f3.push(fields[3]);
    lemma_pushed(f1, fields[1]);
    lemma_pushed(f2, fields[2]);
    lemma_pushed(f3, fields[3]);
    lemma_pushed(f4, fields[4]);
    assert(fields =~= f4.push(fields[4]));
    let head = "{\"socket\":\""@ + o.socket@ + seq!['"'];
    assert(head == seq!['{'] + fields_text(f1)) by {
        reveal_strlit("socket");
        reveal_strlit("{\"socket\":\"");
        lemma_plain_text("socket"@);
        assert(f1.last() == fields[0]);
        assert(json_text(fields[0].1) == quoted(o.socket@));
        assert(field_text(fields[0]) == quoted("socket"@) + seq![':'] + quoted(o.socket@));
        assert(head =~= seq!['{'] + field_text(fields[0]));
    }
    assert("\",\"frames\":"@ =~= seq!['"'] + comma_key("frames"@)) by {
        reveal_strlit("frames");
        reveal_strlit("\",\"frames\":");
    }
    assert(",\"clients_accepted\":"@ =~= comma_key("clients_accepted"@)) by {
        reveal_strlit("clients_accepted");
        reveal_strlit(",\"clients_accepted\":");
    }
    assert(",\"toplevels_seen\":"@ =~= comma_key("toplevels_seen"@)) by {
        reveal_strlit("toplevels_seen");
        reveal_strlit(",\"toplevels_seen\":");
    }
    assert(",\"mapped_windows\":"@ =~= comma_key("mapped_windows"@)) by {
        reveal_strlit("mapped_windows");
        reveal_strlit(",\"mapped_windows\":");
    }
    reveal_strlit("frames");
    let a2 = head + comma_key("frames"@) + decimal(o.frames as nat);
    lemma_next_field(head, fields_text(f1), "frames"@, o.frames as int);
    assert(a2 == seq!['{'] + fields_text(f2));
    reveal_strlit("clients_accepted");
    let a3 = a2 + comma_key("clients_accepted"@) + decimal(o.clients_accepted as nat);
    lemma_next_field(a2, fields_text(f2), "clients_accepted"@, o.clients_accepted as int);
    assert(a3 == seq!['{'] + fields_text(f3));
    reveal_strlit("toplevels_seen");
    let a4 = a3 + comma_key("toplevels_seen"@) + decimal(o.toplevels_seen as nat);
    lemma_next_field(a3, fields_text(f3), "toplevels_seen"@, o.toplevels_seen as int);
    assert(a4 == seq!['{'] + fields_text(f4));
    reveal_strlit("mapped_windows");
    let a5 = a4 + comma_key("mapped_windows"@) + decimal(o.mapped_windows as nat);
    lemma_next_field(a4, fields_text(f4), "mapped_windows"@, o.mapped_windows as int);
    assert(a5 == seq!['{'] + fields_text(fields));
    reveal_strlit("}");
    assert("}"@ =~= seq!['}']);
    assert("{\"socket\":\""@ + o.socket@ + (seq!['"'] + comma_key("frames"@)) =~= head + comma_key(
        "frames"@,
    ));
    assert(r@ == a5 + seq!['}']);
    assert(json_text(JsonView::Object(fields)) == seq!['{'] + fields_text(fields) + seq!['}']);
}

spec fn comma_key(key: Seq<char>) -> Seq<char> {
    seq![',', '"'] + key + seq!['"', ':']
}

proof fn lemma_pushed(fields: Seq<(Seq<char>, JsonView)>, field: (Seq<char>, JsonView))
    requires
        fields.len() > 0,
    ensures
        fields_text(fields.push(field)) == fields_text(fields) + seq![','] + field_text(field),
{
    assert(fields.push(field).drop_last() =~= fields);
}

proof fn lemma_next_field(acc: Seq<char>, text: Seq<char>, key: Seq<char>, n: int)
    requires
        acc == seq!['{'] + text,
        n >= 0,
        forall|i: int|
            0 <= i < key.len() ==> ('a' <= #[trigger] key[i] && key[i] <= 'z') || key[i] == '_',
    ensures
        acc + comma_key(key) + decimal(n as nat) == seq!['{'] + (text + seq![','] + field_text(
            (key, JsonView::Int(n)),
        )),
{
    lemma_number_field(key, n);
    assert(acc + comma_key(key) + decimal(n as nat) =~= seq!['{'] + (text + seq![','] + field_text(
        (key, JsonView::Int(n)),
    )));
}

proof fn lemma_number_field(key: Seq<char>, n: int)
    requires
        n >= 0,
        forall|i: int|
            0 <= i < key.len() ==> ('a' <= #[trigger] key[i] && key[i] <= 'z') || key[i] == '_',
    ensures
        field_text((key, JsonView::Int(n))) == seq!['"'] + key + seq!['"', ':'] + decimal(n as nat),
{
    lemma_plain_text(key);
    assert(json_text(JsonView::Int(n)) == decimal(n as nat));
    assert(field_text((key, JsonView::Int(n))) =~= seq!['"'] + key + seq!['"', ':'] + decimal(
        n as nat,
    ));
}

proof fn lemma_plain_text(s: Seq<char>)
    requires
        forall|i: int|
            0 <= i < s.len() ==> ('a' <= #[trigger] s[i] && s[i] <= 'z') || s[i] == '_',
    ensures
        escaped(s) == s,
    decreases s.len(),
{
    if s.len() > 0 {
        lemma_plain_text(s.drop_last());
        let c = s[s.len() - 1];
        assert(('a' <= c && c <= 'z') || c == '_');
        assert(crate::json::escaped_char(c) == seq![c]);
        assert(escaped(s) =~= s);
    } else {
        assert(escaped(s) =~= s);
    }
}

/// A client is started with the words that were given, the first as the program and the
/// others, in order, as its arguments; it finds this socket and no X display. Without words
/// nothing is started.
pub proof fn law_client_is_started_as_given(
    argv: &[String],
    socket: &str,
    r: Option<ClientCommand>,
)
    requires
        call_ensures(client_command, (argv, socket), r),
    ensures
        r is None <==> argv@.len() == 0,
        r matches Some(c) ==> {
            &&& seq![c.program@] + texts(c.args@) == texts(argv@)
            &&& c.set_env@.len() == 2
            &&& c.set_env@[0].0@ == "WAYLAND_DISPLAY"@
            &&& c.set_env@[0].1@ == socket@
            &&& c.set_env@[1].0@ == "XDG_SESSION_TYPE"@
            &&& c.set_env@[1].1@ == "wayland"@
            &&& c.removed_env@ == "DISPLAY"@
        },
{
    if let Some(c) = r {
        assert(seq![c.program@] + texts(c.args@) =~= texts(argv@));
    }
}

/// The time of a frame callback is the time since the start as long as it can be written down
/// below the largest number, and starts over there.
pub proof fn law_frame_time_starts_over(elapsed_millis: u128, r: u32)
    requires
        call_ensures(frame_time_ms, (elapsed_millis,), r),
    ensures
        elapsed_millis < u32::MAX ==> r == elapsed_millis,
        elapsed_millis == u32::MAX ==> r == 0,
        r < u32::MAX,
        (elapsed_millis - r) % (u32::MAX as int) == 0,
{
}

} // verus!
