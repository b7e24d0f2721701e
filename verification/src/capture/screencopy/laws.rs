//! What a capture is, told by what the compositor says and what comes of it.

use vstd::prelude::*;

use super::{
    assemble, capture_with_retry, cell, entries_without, entry_at, flip_rows, known_names,
    lemma_cell, named, pump_step, supported_format, CopyPlan, FrameEvent,
    OutputEntryView, OutputTable, PendingFrame, PumpStep, ShmBufferSpec,
};
use crate::capture::FrameSource;
use crate::display::OutputId;
use crate::error::Error;
use crate::frame::{Frame, FrameOrigin, PixelFormat};
use crate::retry::{BackoffWait, RetryPolicy};
use crate::testing::texts;
use crate::time::UtcTimestamp;

verus! {

/// A format that the compositor names is one of two that frames know, by its number in the
/// protocol, or none.
pub proof fn law_formats_have_the_numbers_of_the_protocol(raw: u32, r: Option<PixelFormat>)
    requires
        call_ensures(supported_format, (raw,), r),
    ensures
        r == Some(PixelFormat::Argb8888) <==> raw == 0,
        r == Some(PixelFormat::Xrgb8888) <==> raw == 1,
        r is None <==> raw > 1,
{
}

spec fn went_through(events: Seq<FrameEvent>, states: Seq<PendingFrame>) -> bool {
    &&& states.len() == events.len() + 1
    &&& states[0] == PendingFrame::nothing()
    &&& forall|i: int|
        #![trigger events[i]]
        0 <= i < events.len() ==> states[i + 1] == states[i].after(events[i])
}

proof fn lemma_went_shorter(events: Seq<FrameEvent>, states: Seq<PendingFrame>)
    requires
        went_through(events, states),
        events.len() > 0,
    ensures
        went_through(events.drop_last(), states.drop_last()),
{
    let earlier = events.drop_last();
    let before = states.drop_last();
    assert forall|i: int|
        #![trigger earlier[i]]
        0 <= i < earlier.len() implies before[i + 1] == before[i].after(earlier[i]) by {
        assert(earlier[i] == events[i]);
    }
}

proof fn lemma_went_through(
    events: Seq<FrameEvent>,
    states: Seq<PendingFrame>,
    calls: Seq<&mut PendingFrame>,
)
    requires
        states.len() == events.len() + 1,
        calls.len() == events.len(),
        call_ensures(PendingFrame::default, (), states[0]),
        forall|i: int|
            #![trigger calls[i]]
            0 <= i < events.len() ==> call_ensures(PendingFrame::apply, (calls[i], events[i]), ())
                && *calls[i] == states[i] && *final(calls[i]) == states[i + 1],
    ensures
        went_through(events, states),
{
    assert forall|i: int|
        #![trigger events[i]]
        0 <= i < events.len() implies states[i + 1] == states[i].after(events[i]) by {
        let call = calls[i];
        assert(*final(call) == call.after(events[i]));
    }
}

proof fn lemma_said(events: Seq<FrameEvent>, states: Seq<PendingFrame>)
    requires
        went_through(events, states),
    ensures
        states.last().ready <==> events.contains(FrameEvent::Ready),
        states.last().failed <==> events.contains(FrameEvent::Failed),
        states.last().buffer_done <==> events.contains(FrameEvent::BufferDone),
    decreases events.len(),
{
    if events.len() > 0 {
        let n = events.len() as int;
        let earlier = events.drop_last();
        let before = states.drop_last();
        lemma_went_shorter(events, states);
        lemma_said(earlier, before);
        assert(states[n] == states[n - 1].after(events[n - 1]));
        assert(before.last() == states[n - 1]);
        assert forall|i: int| 0 <= i < n - 1 implies #[trigger] events[i] == earlier[i] by {}
        let last = events.last();
        assert(events =~= earlier.push(last));
        vstd::seq_lib::lemma_seq_contains_after_push(earlier, last, FrameEvent::Ready);
        vstd::seq_lib::lemma_seq_contains_after_push(earlier, last, FrameEvent::Failed);
        vstd::seq_lib::lemma_seq_contains_after_push(earlier, last, FrameEvent::BufferDone);
    }
}

proof fn lemma_flags(events: Seq<FrameEvent>, states: Seq<PendingFrame>, at: int)
    requires
        went_through(events, states),
        -1 <= at < events.len(),
        at >= 0 ==> events[at] is Flags,
        forall|j: int| at < j < events.len() ==> !((#[trigger] events[j]) is Flags),
    ensures
        at < 0 ==> !states.last().y_invert,
        at >= 0 ==> states.last().y_invert == events[at]->y_invert,
    decreases events.len(),
{
    let n = events.len() as int;
    if n > 0 {
        assert(states[n] == states[n - 1].after(events[n - 1]));
        if at < n - 1 {
            lemma_went_shorter(events, states);
            let earlier = events.drop_last();
            assert forall|j: int| at < j < earlier.len() implies !((#[trigger] earlier[j]) is Flags) by {
                assert(earlier[j] == events[j]);
            }
            lemma_flags(earlier, states.drop_last(), at);
            assert(!(events[n - 1] is Flags));
        }
    }
}

proof fn lemma_buffer(events: Seq<FrameEvent>, states: Seq<PendingFrame>, at: int)
    requires
        went_through(events, states),
        -1 <= at < events.len(),
        at >= 0 ==> events[at] is Buffer && events[at]->format <= 1,
        forall|j: int| at < j < events.len() ==> !((#[trigger] events[j]) is Buffer && events[j]->format <= 1),
    ensures
        at < 0 ==> states.last().shm is None,
        at >= 0 ==> states.last().shm == Some(
            ShmBufferSpec {
                format: events[at]->format,
                width: events[at]->width,
                height: events[at]->height,
                stride: events[at]->stride,
            },
        ),
    decreases events.len(),
{
    let n = events.len() as int;
    if n > 0 {
        assert(states[n] == states[n - 1].after(events[n - 1]));
        if at < n - 1 {
            lemma_went_shorter(events, states);
            let earlier = events.drop_last();
            assert forall|j: int| at < j < earlier.len() implies !((#[trigger] earlier[j]) is Buffer && earlier[j]->format <= 1) by {
                assert(earlier[j] == events[j]);
            }
            lemma_buffer(earlier, states.drop_last(), at);
            assert(!(events[n - 1] is Buffer && events[n - 1]->format <= 1));
        }
    }
}

proof fn lemma_unknown(events: Seq<FrameEvent>, states: Seq<PendingFrame>, at: int)
    requires
        went_through(events, states),
        -1 <= at < events.len(),
        at >= 0 ==> events[at] is Buffer && events[at]->format > 1,
        forall|j: int| at < j < events.len() ==> !((#[trigger] events[j]) is Buffer && events[j]->format > 1),
    ensures
        at < 0 ==> states.last().unsupported_format is None,
        at >= 0 ==> states.last().unsupported_format == Some(events[at]->format),
    decreases events.len(),
{
    let n = events.len() as int;
    if n > 0 {
        assert(states[n] == states[n - 1].after(events[n - 1]));
        if at < n - 1 {
            lemma_went_shorter(events, states);
            let earlier = events.drop_last();
            assert forall|j: int| at < j < earlier.len() implies !((#[trigger] earlier[j]) is Buffer && earlier[j]->format > 1) by {
                assert(earlier[j] == events[j]);
            }
            lemma_unknown(earlier, states.drop_last(), at);
            assert(!(events[n - 1] is Buffer && events[n - 1]->format > 1));
        }
    }
}

/// After any row of events it is known that the copy is ready, that it failed, and that all
/// buffers were named, each if and only if it was said.
pub proof fn law_what_was_said_is_known(
    events: Seq<FrameEvent>,
    states: Seq<PendingFrame>,
    calls: Seq<&mut PendingFrame>,
)
    requires
        states.len() == events.len() + 1,
        calls.len() == events.len(),
        call_ensures(PendingFrame::default, (), states[0]),
        forall|i: int|
            #![trigger calls[i]]
            0 <= i < events.len() ==> call_ensures(PendingFrame::apply, (calls[i], events[i]), ())
                && *calls[i] == states[i] && *final(calls[i]) == states[i + 1],
    ensures
        states.last().ready <==> events.contains(FrameEvent::Ready),
        states.last().failed <==> events.contains(FrameEvent::Failed),
        states.last().buffer_done <==> events.contains(FrameEvent::BufferDone),
{
    lemma_went_through(events, states, calls);
    lemma_said(events, states);
}

/// After any row of events the rows stand upside down if the last flags said so; without any
/// flags they do not. `at` is the event that said it last, or none.
pub proof fn law_flags_are_known_as_said_last(
    events: Seq<FrameEvent>,
    states: Seq<PendingFrame>,
    calls: Seq<&mut PendingFrame>,
    at: int,
)
    requires
        states.len() == events.len() + 1,
        calls.len() == events.len(),
        call_ensures(PendingFrame::default, (), states[0]),
        forall|i: int|
            #![trigger calls[i]]
            0 <= i < events.len() ==> call_ensures(PendingFrame::apply, (calls[i], events[i]), ())
                && *calls[i] == states[i] && *final(calls[i]) == states[i + 1],
        -1 <= at < events.len(),
        at >= 0 ==> events[at] is Flags,
        forall|j: int| at < j < events.len() ==> !((#[trigger] events[j]) is Flags),
    ensures
        at < 0 ==> !states.last().y_invert,
        at >= 0 ==> states.last().y_invert == events[at]->y_invert,
{
    lemma_went_through(events, states, calls);
    lemma_flags(events, states, at);
}

/// After any row of events the buffer is the last that was named in a known format, number
/// for number, or none.
pub proof fn law_buffer_is_the_one_named_last(
    events: Seq<FrameEvent>,
    states: Seq<PendingFrame>,
    calls: Seq<&mut PendingFrame>,
    at: int,
)
    requires
        states.len() == events.len() + 1,
        calls.len() == events.len(),
        call_ensures(PendingFrame::default, (), states[0]),
        forall|i: int|
            #![trigger calls[i]]
            0 <= i < events.len() ==> call_ensures(PendingFrame::apply, (calls[i], events[i]), ())
                && *calls[i] == states[i] && *final(calls[i]) == states[i + 1],
        -1 <= at < events.len(),
        at >= 0 ==> events[at] is Buffer && events[at]->format <= 1,
        forall|j: int| at < j < events.len() ==> !((#[trigger] events[j]) is Buffer && events[j]->format <= 1),
    ensures
        at < 0 ==> states.last().shm is None,
        at >= 0 ==> states.last().shm == Some(
            ShmBufferSpec {
                format: events[at]->format,
                width: events[at]->width,
                height: events[at]->height,
                stride: events[at]->stride,
            },
        ),
{
    lemma_went_through(events, states, calls);
    lemma_buffer(events, states, at);
}

/// After any row of events the unknown format is the last that was named, or none.
pub proof fn law_unknown_format_is_remembered(
    events: Seq<FrameEvent>,
    states: Seq<PendingFrame>,
    calls: Seq<&mut PendingFrame>,
    at: int,
)
    requires
        states.len() == events.len() + 1,
        calls.len() == events.len(),
        call_ensures(PendingFrame::default, (), states[0]),
        forall|i: int|
            #![trigger calls[i]]
            0 <= i < events.len() ==> call_ensures(PendingFrame::apply, (calls[i], events[i]), ())
                && *calls[i] == states[i] && *final(calls[i]) == states[i + 1],
        -1 <= at < events.len(),
        at >= 0 ==> events[at] is Buffer && events[at]->format > 1,
        forall|j: int| at < j < events.len() ==> !((#[trigger] events[j]) is Buffer && events[j]->format > 1),
    ensures
        at < 0 ==> states.last().unsupported_format is None,
        at >= 0 ==> states.last().unsupported_format == Some(events[at]->format),
{
    lemma_went_through(events, states, calls);
    lemma_unknown(events, states, at);
}

/// Over a whole row of events, the frame holds the bytes that were read, with the rows in
/// reverse exactly where the last flags said that they stand upside down: byte for byte, row
/// by row. It is a real capture of the size, layout and time that it was made of.
pub proof fn law_frame_stands_as_flagged(
    events: Seq<FrameEvent>,
    states: Seq<PendingFrame>,
    calls: Seq<&mut PendingFrame>,
    flags: int,
    plan: CopyPlan,
    pixels: Vec<u8>,
    captured_at: UtcTimestamp,
    r: Result<Frame, Error>,
    row: int,
    byte: int,
)
    requires
        states.len() == events.len() + 1,
        calls.len() == events.len(),
        call_ensures(PendingFrame::default, (), states[0]),
        forall|i: int|
            #![trigger calls[i]]
            0 <= i < events.len() ==> call_ensures(PendingFrame::apply, (calls[i], events[i]), ())
                && *calls[i] == states[i] && *final(calls[i]) == states[i + 1],
        -1 <= flags < events.len(),
        flags >= 0 ==> events[flags] is Flags,
        forall|j: int| flags < j < events.len() ==> !((#[trigger] events[j]) is Flags),
        pixels@.len() == plan.size,
        plan.size == plan.spec.stride * plan.spec.height,
        call_ensures(assemble, (&states.last(), plan, pixels, captured_at), r),
        r is Ok,
        0 <= row < plan.spec.height,
        0 <= byte < plan.spec.stride,
    ensures
        ({
            let f = r->Ok_0@;
            let stride = plan.spec.stride as int;
            let inverted = flags >= 0 && events[flags]->y_invert;
            &&& f.pixels.len() == pixels@.len()
            &&& inverted ==> f.pixels[row * stride + byte] == pixels@[(plan.spec.height - 1 - row)
                * stride + byte]
            &&& !inverted ==> f.pixels[row * stride + byte] == pixels@[row * stride + byte]
            &&& !inverted ==> f.pixels == pixels@
            &&& f.origin == FrameOrigin::RealCapture
            &&& f.format == plan.format
            &&& f.width_px == plan.spec.width
            &&& f.height_px == plan.spec.height
            &&& f.stride_bytes == plan.spec.stride
            &&& f.captured_at == captured_at
        }),
{
    lemma_went_through(events, states, calls);
    lemma_flags(events, states, flags);
    lemma_cell(row, byte, plan.spec.stride as int, plan.spec.height as int);
    assert(cell(row, byte, plan.spec.stride as int) == row * plan.spec.stride + byte);
    assert(cell(plan.spec.height - 1 - row, byte, plan.spec.stride as int) == (plan.spec.height - 1
        - row) * plan.spec.stride + byte);
}

/// There is a frame exactly where the copy was reported as ready, was never reported as
/// failed, and a row holds its pixels of four bytes each.
pub proof fn law_frame_needs_a_finished_copy(
    events: Seq<FrameEvent>,
    states: Seq<PendingFrame>,
    calls: Seq<&mut PendingFrame>,
    plan: CopyPlan,
    pixels: Vec<u8>,
    captured_at: UtcTimestamp,
    r: Result<Frame, Error>,
)
    requires
        states.len() == events.len() + 1,
        calls.len() == events.len(),
        call_ensures(PendingFrame::default, (), states[0]),
        forall|i: int|
            #![trigger calls[i]]
            0 <= i < events.len() ==> call_ensures(PendingFrame::apply, (calls[i], events[i]), ())
                && *calls[i] == states[i] && *final(calls[i]) == states[i + 1],
        pixels@.len() == plan.size,
        plan.size == plan.spec.stride * plan.spec.height,
        call_ensures(assemble, (&states.last(), plan, pixels, captured_at), r),
    ensures
        r is Ok <==> {
            &&& events.contains(FrameEvent::Ready)
            &&& !events.contains(FrameEvent::Failed)
            &&& plan.spec.width * 4 <= plan.spec.stride
        },
{
    lemma_went_through(events, states, calls);
    lemma_said(events, states);
}

/// The buffer to copy into is the one that was noted, in its own layout, with room for all of
/// its rows. There is one exactly where the offer has not failed, a buffer was noted that has
/// pixels in a known format, and its bytes can be counted.
pub proof fn law_chosen_buffer_is_the_noted_one(pending: PendingFrame, r: Result<CopyPlan, Error>)
    requires
        call_ensures(PendingFrame::choose_buffer, (&pending,), r),
    ensures
        r is Ok <==> {
            &&& !pending.failed
            &&& pending.shm is Some
            &&& pending.shm->0.width > 0
            &&& pending.shm->0.height > 0
            &&& pending.shm->0.format <= 1
            &&& pending.shm->0.stride * pending.shm->0.height <= usize::MAX
        },
        r matches Ok(plan) ==> {
            &&& Some(plan.spec) == pending.shm
            &&& plan.size == plan.spec.stride * plan.spec.height
            &&& plan.format == PixelFormat::Argb8888 <==> plan.spec.format == 0
            &&& plan.format == PixelFormat::Xrgb8888 <==> plan.spec.format == 1
        },
{
}

/// Whether the offer and the copy are over: the offer once all buffers were named, or it
/// failed, or a format came that nobody knows; the copy once it is ready or failed.
pub proof fn law_offer_and_copy_come_to_an_end(pending: PendingFrame, offer: bool, copy: bool)
    requires
        call_ensures(PendingFrame::offer_is_over, (&pending,), offer),
        call_ensures(PendingFrame::copy_is_over, (&pending,), copy),
    ensures
        pending.failed ==> offer && copy,
        pending.buffer_done ==> offer,
        pending.unsupported_format is Some ==> offer,
        pending.ready ==> copy,
        !pending.failed && !pending.ready ==> !copy,
        !pending.failed && !pending.buffer_done && pending.unsupported_format is None ==> !offer,
{
}

/// Putting the rows in the opposite order moves every byte to the same column of the mirrored
/// row, and moves nothing beyond the rows.
pub proof fn law_rows_are_mirrored(
    pixels: &mut Vec<u8>,
    stride: usize,
    height: usize,
    row: int,
    byte: int,
)
    requires
        call_ensures(flip_rows, (pixels, stride, height), ()),
        stride * height <= pixels@.len(),
        0 <= row < height,
        0 <= byte < stride,
    ensures
        final(pixels)@.len() == old(pixels)@.len(),
        final(pixels)@[row * stride + byte] == old(pixels)@[(height - 1 - row) * stride + byte],
        forall|i: int|
            stride * height <= i < old(pixels)@.len() ==> #[trigger] final(pixels)@[i] == old(
                pixels,
            )@[i],
{
    lemma_cell(row, byte, stride as int, height as int);
    assert(cell(row, byte, stride as int) == row * stride + byte);
    assert(cell(height - 1 - row, byte, stride as int) == (height - 1 - row) * stride + byte);
}

/// What was waited for ends the wait, even at the deadline; else the deadline does; else what
/// is left of the time until then is waited for.
pub proof fn law_waiting_ends_at_the_deadline(
    done: bool,
    now_nanos: u64,
    deadline_nanos: u64,
    r: PumpStep,
)
    requires
        call_ensures(pump_step, (done, now_nanos, deadline_nanos), r),
    ensures
        r is Done <==> done,
        r is TimedOut <==> !done && deadline_nanos <= now_nanos,
        r matches PumpStep::WaitAtMost { nanos } ==> now_nanos + nanos == deadline_nanos && nanos
            > 0,
{
}

/// An output is found by its name: the first that bears it, and none where none does.
pub proof fn law_output_is_found_by_its_name<H>(
    table: OutputTable<H>,
    id: OutputId,
    r: Result<&H, Error>,
)
    requires
        call_ensures(OutputTable::<H>::find, (&table, &id), r),
    ensures
        r is Err <==> forall|i: int|
            0 <= i < table@.len() ==> (#[trigger] table@[i]).name != Some(id@),
        r matches Ok(h) ==> exists|i: int|
            {
                &&& 0 <= i < table@.len()
                &&& (#[trigger] table@[i]).name == Some(id@)
                &&& table@[i].output == *h
                &&& forall|j: int| 0 <= j < i ==> (#[trigger] table@[j]).name != Some(id@)
            },
{
    lemma_named(table@, id@);
}

proof fn lemma_named<H>(entries: Seq<OutputEntryView<H>>, name: Seq<char>)
    ensures
        named(entries, name) is None <==> forall|i: int|
            0 <= i < entries.len() ==> (#[trigger] entries[i]).name != Some(name),
        named(entries, name) matches Some(h) ==> exists|i: int|
            {
                &&& 0 <= i < entries.len()
                &&& (#[trigger] entries[i]).name == Some(name)
                &&& entries[i].output == h
                &&& forall|j: int| 0 <= j < i ==> (#[trigger] entries[j]).name != Some(name)
            },
    decreases entries.len(),
{
    if entries.len() > 0 {
        let rest = entries.drop_first();
        assert forall|i: int| 1 <= i < entries.len() implies #[trigger] entries[i] == rest[i
            - 1] by {}
        if entries.first().name == Some(name) {
            assert(entries[0].name == Some(name));
        } else {
            lemma_named(rest, name);
            if named(rest, name) is None {
                assert forall|i: int| 0 <= i < entries.len() implies (
                #[trigger] entries[i]).name != Some(name) by {
                    if i > 0 {
                        assert(rest[i - 1].name != Some(name));
                    }
                }
            } else {
                let h = named(rest, name)->0;
                let i = choose|i: int|
                    {
                        &&& 0 <= i < rest.len()
                        &&& (#[trigger] rest[i]).name == Some(name)
                        &&& rest[i].output == h
                        &&& forall|j: int| 0 <= j < i ==> (#[trigger] rest[j]).name != Some(name)
                    };
                assert(entries[i + 1].name == Some(name) && entries[i + 1].output == h);
                assert forall|j: int| 0 <= j < i + 1 implies (#[trigger] entries[j]).name != Some(
                    name,
                ) by {
                    if j > 0 {
                        assert(rest[j - 1].name != Some(name));
                    }
                }
            }
        }
    }
}

/// An output that is withdrawn is gone, and every other stays, in order.
pub proof fn law_withdrawn_output_is_gone<H>(table: &mut OutputTable<H>, global_name: u32)
    requires
        call_ensures(OutputTable::<H>::withdraw, (table, global_name), ()),
    ensures
        final(table)@ == old(table)@.filter(
            |entry: OutputEntryView<H>| entry.global_name != global_name,
        ),
{
    lemma_without(table@, global_name);
}

proof fn lemma_without<H>(entries: Seq<OutputEntryView<H>>, global_name: u32)
    ensures
        entries_without(entries, global_name) == entries.filter(
            |entry: OutputEntryView<H>| entry.global_name != global_name,
        ),
    decreases entries.len(),
{
    reveal(Seq::filter);
    if entries.len() > 0 {
        lemma_without(entries.drop_last(), global_name);
    }
}

/// A name goes to the first output with the number, and to no other.
pub proof fn law_name_goes_to_its_output<H>(
    table: &mut OutputTable<H>,
    global_name: u32,
    name: String,
    at: int,
)
    requires
        call_ensures(OutputTable::<H>::set_name, (table, global_name, name), ()),
        0 <= at < table@.len(),
        table@[at].global_name == global_name,
        forall|j: int| 0 <= j < at ==> (#[trigger] table@[j]).global_name != global_name,
    ensures
        final(table)@.len() == old(table)@.len(),
        final(table)@[at].name == Some(name@),
        final(table)@[at].global_name == global_name,
        final(table)@[at].output == old(table)@[at].output,
        forall|j: int|
            0 <= j < old(table)@.len() && j != at ==> #[trigger] final(table)@[j] == old(table)@[j],
{
    lemma_entry_at(table@, global_name, at);
}

proof fn lemma_entry_at<H>(entries: Seq<OutputEntryView<H>>, global_name: u32, at: int)
    requires
        0 <= at < entries.len(),
        entries[at].global_name == global_name,
        forall|j: int| 0 <= j < at ==> (#[trigger] entries[j]).global_name != global_name,
    ensures
        entry_at(entries, global_name) == at,
    decreases entries.len(),
{
    if at > 0 {
        assert(entries[0].global_name != global_name);
        let rest = entries.drop_first();
        assert forall|j: int| 0 <= j < at - 1 implies (#[trigger] rest[j]).global_name
            != global_name by {
            assert(rest[j] == entries[j + 1]);
        }
        lemma_entry_at(rest, global_name, at - 1);
    }
}

/// A capture is tried until it succeeds or no retry is left: every attempt is at the output
/// that was asked for, the last attempt's frame or error is what is told, and an attempt
/// follows only after one that failed. Before each of them but the first there is one wait, up to
/// the ceiling that the policy has for the attempt before it.
pub proof fn law_capture_is_tried_as_often_as_allowed<S: FrameSource, W: BackoffWait>(
    source: &mut S,
    output: OutputId,
    policy: RetryPolicy,
    wait: &mut W,
    r: Result<Frame, Error>,
    attempt: u32,
    ceiling: u64,
)
    requires
        call_ensures(capture_with_retry::<S, W>, (source, &output, policy, wait), r),
        call_ensures(RetryPolicy::delay_ceiling_millis, (policy, attempt), ceiling),
    ensures
        ({
            let before = old(source).captures();
            let after = final(source).captures();
            let tries = after.len() - before.len();
            let waited = old(wait).ceilings();
            let waits = final(wait).ceilings();
            &&& 1 <= tries <= policy.retries() + 1
            &&& after.take(before.len() as int) == before
            &&& forall|i: int|
                before.len() <= i < after.len() ==> (#[trigger] after[i]).output == output@
            &&& forall|i: int|
                before.len() <= i < after.len() - 1 ==> (#[trigger] after[i]).outcome is Err
            &&& r matches Ok(f) ==> after.last().outcome is Ok && after.last().outcome->Ok_0 == f@
            &&& r matches Err(e) ==> {
                &&& after.last().outcome is Err
                &&& after.last().outcome->Err_0 == e@
                &&& tries == policy.retries() + 1
            }
            &&& waits.len() == waited.len() + tries - 1
            &&& waits.take(waited.len() as int) == waited
            &&& waited.len() + attempt < waits.len() ==> waits[waited.len() + attempt] == ceiling
        }),
{
    let before = source.captures();
    let after = final(source).captures();
    let run = after.skip(before.len() as int);
    assert(after.take(before.len() as int) =~= before);
    assert(run.last() == after.last());
    assert forall|i: int| before.len() <= i < after.len() implies (#[trigger] after[i]).output
        == output@ by {
        assert(run[i - before.len()] == after[i]);
    }
    assert forall|i: int| before.len() <= i < after.len() - 1 implies (
    #[trigger] after[i]).outcome is Err by {
        assert(run[i - before.len()] == after[i]);
    }
    assert(final(wait).ceilings().take(wait.ceilings().len() as int) =~= wait.ceilings());
}

/// The names of the outputs are those that are known, in order, and nothing else.
pub proof fn law_names_are_those_that_are_known<H>(table: OutputTable<H>, r: Vec<String>)
    requires
        call_ensures(OutputTable::<H>::names, (&table,), r),
    ensures
        ({
            let known = table@.filter(|entry: OutputEntryView<H>| entry.name is Some);
            &&& r@.len() == known.len()
            &&& forall|i: int| 0 <= i < known.len() ==> Some(r@[i]@) == (#[trigger] known[i]).name
        }),
{
    lemma_known_names(table@);
    assert(texts(r@) == known_names(table@));
    assert forall|i: int| 0 <= i < r@.len() implies #[trigger] r@[i]@ == known_names(
        table@,
    )[i] by {
        assert(texts(r@)[i] == r@[i]@);
    }
}

proof fn lemma_known_names<H>(entries: Seq<OutputEntryView<H>>)
    ensures
        ({
            let known = entries.filter(|entry: OutputEntryView<H>| entry.name is Some);
            &&& known_names(entries).len() == known.len()
            &&& forall|i: int|
                0 <= i < known.len() ==> Some(known_names(entries)[i]) == (
                #[trigger] known[i]).name
        }),
    decreases entries.len(),
{
    reveal(Seq::filter);
    if entries.len() > 0 {
        lemma_known_names(entries.drop_last());
    }
}

} // verus!
