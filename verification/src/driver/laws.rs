//! What a step does, told by what goes in and what comes out of it.

use vstd::prelude::*;

use super::{
    after_event, after_events, all_succeeded, drawn_part, emissions, key_count, key_part,
    motion_of, pointer_count, pointer_part, ran_by, step_run, stepped, stepped_by, whats,
    DriverConfig, DriverState, Emission, Emitted, PanelDriver, StepEffect, StepOutcome, Turn,
};
use crate::capture::FrameSource;
use crate::error::{Error, ErrorView};
use crate::id::{IdGen, IdView};
use crate::input::{
    ButtonState, Delivery, KeyDeliveryView, KeyboardSink, Keycode, PointerDeliveryView,
    PointerEventKind, PointerSink,
};
use crate::panel::cursor::{CursorResolution, PointerHold};
use crate::panel::grab::{ControllerId, GrabState};
use crate::panel::{Geometry, PanelPose, PoseFrame};
use crate::time::Clock;
use crate::xr::{PressState, SessionCall, SessionState, Sleeper, XrEvent, XrSession};

verus! {

/// The trigger events of one hand, in order.
pub open spec fn triggers_of<P>(hand: ControllerId, events: Seq<XrEvent<P>>) -> Seq<XrEvent<P>> {
    events.filter(
        |e: XrEvent<P>|
            match e {
                XrEvent::PointerButton { controller, .. } => controller == hand,
                _ => false,
            },
    )
}

/// The key events, in order.
pub open spec fn keys_among<P>(events: Seq<XrEvent<P>>) -> Seq<XrEvent<P>> {
    events.filter(|e: XrEvent<P>| e is Key)
}

spec fn kinds(ws: Seq<Emission>) -> Seq<PointerEventKind>
    decreases ws.len(),
{
    if ws.len() == 0 {
        Seq::empty()
    } else {
        match ws.last() {
            Emission::Pointer(kind) => kinds(ws.drop_last()).push(kind),
            Emission::Key { .. } => kinds(ws.drop_last()),
        }
    }
}

spec fn strokes(ws: Seq<Emission>) -> Seq<(Keycode, ButtonState)>
    decreases ws.len(),
{
    if ws.len() == 0 {
        Seq::empty()
    } else {
        match ws.last() {
            Emission::Pointer(_) => strokes(ws.drop_last()),
            Emission::Key { keycode, state } => strokes(ws.drop_last()).push((keycode, state)),
        }
    }
}

proof fn lemma_kinds_concat(a: Seq<Emission>, b: Seq<Emission>)
    ensures
        kinds(a + b) == kinds(a) + kinds(b),
        strokes(a + b) == strokes(a) + strokes(b),
    decreases b.len(),
{
    if b.len() == 0 {
        assert(a + b =~= a);
        assert(kinds(a) + kinds(b) =~= kinds(a));
        assert(strokes(a) + strokes(b) =~= strokes(a));
    } else {
        assert((a + b).drop_last() =~= a + b.drop_last());
        lemma_kinds_concat(a, b.drop_last());
        assert(kinds(a + b) =~= kinds(a) + kinds(b));
        assert(strokes(a + b) =~= strokes(a) + strokes(b));
    }
}

/// What reaches the sinks of a row of which at most the last entry failed.
proof fn lemma_offered(log: Seq<Emitted>)
    requires
        log.len() > 0 ==> all_succeeded(log.drop_last()),
    ensures
        pointer_part(log).len() <= kinds(whats(log)).len(),
        key_part(log).len() <= strokes(whats(log)).len(),
        all_succeeded(log) ==> pointer_part(log).len() == kinds(whats(log)).len()
            && key_part(log).len() == strokes(whats(log)).len(),
        forall|i: int|
            0 <= i < pointer_part(log).len() ==> (#[trigger] pointer_part(log)[i]).event.kind
                == kinds(whats(log))[i],
        forall|i: int|
            0 <= i < key_part(log).len() ==> ((#[trigger] key_part(log)[i]).event.keycode, key_part(
                log,
            )[i].event.state) == strokes(whats(log))[i],
    decreases log.len(),
{
    if log.len() > 0 {
        let earlier = log.drop_last();
        assert(whats(log).drop_last() =~= whats(earlier));
        assert(whats(log).last() == log.last().what);
        assert(earlier.len() > 0 ==> all_succeeded(earlier.drop_last())) by {
            if earlier.len() > 0 {
                let shorter = earlier.drop_last();
                assert forall|i: int| 0 <= i < shorter.len() implies (
                #[trigger] shorter[i]).succeeded() by {
                    assert(shorter[i] == earlier[i]);
                }
            }
        }
        lemma_offered(earlier);
        if all_succeeded(log) {
            assert(log[log.len() - 1].succeeded());
        }
    }
}

proof fn lemma_triggers_push<P>(hand: ControllerId, events: Seq<XrEvent<P>>)
    requires
        events.len() > 0,
    ensures
        triggers_of(hand, events) == (match events.last() {
            XrEvent::PointerButton { controller, .. } => if controller == hand {
                triggers_of(hand, events.drop_last()).push(events.last())
            } else {
                triggers_of(hand, events.drop_last())
            },
            _ => triggers_of(hand, events.drop_last()),
        }),
        keys_among(events) == (if events.last() is Key {
            keys_among(events.drop_last()).push(events.last())
        } else {
            keys_among(events.drop_last())
        }),
{
    reveal(Seq::filter);
}

proof fn lemma_emitted_kinds<P>(config: DriverConfig, events: Seq<XrEvent<P>>)
    ensures
        ({
            let clicks = triggers_of(config.pointer_controller, events);
            let typed = keys_among(events);
            let told = kinds(emissions(config, events));
            let typing = strokes(emissions(config, events));
            &&& told.len() == clicks.len()
            &&& typing.len() == typed.len()
            &&& forall|i: int| #![trigger clicks[i]] #![trigger told[i]]
                0 <= i < clicks.len() ==> {
                    &&& clicks[i] is PointerButton
                    &&& told[i] == (PointerEventKind::Button {
                        button: config.click_button,
                        state: if clicks[i]->PointerButton_state == PressState::Pressed {
                            ButtonState::Pressed
                        } else {
                            ButtonState::Released
                        },
                    })
                }
            &&& forall|i: int| #![trigger typed[i]] #![trigger typing[i]]
                0 <= i < typed.len() ==> {
                    &&& typed[i] is Key
                    &&& typing[i] == (
                        typed[i]->keycode,
                        if typed[i]->Key_state == PressState::Pressed {
                            ButtonState::Pressed
                        } else {
                            ButtonState::Released
                        },
                    )
                }
        }),
    decreases events.len(),
{
    if events.len() == 0 {
        reveal(Seq::filter);
    } else {
        lemma_emitted_kinds(config, events.drop_last());
        lemma_triggers_push(config.pointer_controller, events);
        let earlier = emissions(config, events.drop_last());
        let all = emissions(config, events);
        if all.len() > earlier.len() {
            assert(all.drop_last() =~= earlier);
        }
    }
}

proof fn lemma_earlier_triggers<P>(hand: ControllerId, events: Seq<XrEvent<P>>, n: int)
    requires
        0 <= n <= events.len(),
    ensures
        triggers_of(hand, events.take(n)).len() <= triggers_of(hand, events).len(),
        keys_among(events.take(n)).len() <= keys_among(events).len(),
        forall|i: int|
            0 <= i < triggers_of(hand, events.take(n)).len() ==> #[trigger] triggers_of(
                hand,
                events.take(n),
            )[i] == triggers_of(hand, events)[i],
        forall|i: int|
            0 <= i < keys_among(events.take(n)).len() ==> #[trigger] keys_among(events.take(n))[i]
                == keys_among(events)[i],
    decreases events.len(),
{
    if n == events.len() {
        assert(events.take(n) =~= events);
    } else {
        let shorter = events.drop_last();
        assert(shorter.take(n) =~= events.take(n));
        lemma_earlier_triggers(hand, shorter, n);
        lemma_triggers_push(hand, events);
    }
}

/// What a step that polled some events was to hand over: all of what they say and the motion,
/// or, where it failed, what the first of them say.
proof fn lemma_log_of_a_step<G: Geometry>(
    config: DriverConfig,
    output: Seq<char>,
    presents: bool,
    eff: StepEffect<G::Size, G::Pose, G::Point>,
    events: Seq<XrEvent<G::Pose>>,
) -> (n: int)
    requires
        step_run::<G>(config, output, presents, eff),
        eff.asked[0] == SessionCall::<G::Size, G::Pose>::Polled(Ok(events)),
    ensures
        0 <= n <= events.len(),
        eff.log.len() > 0 ==> all_succeeded(eff.log.drop_last()),
        whats(eff.log) == emissions(config, events.take(n)) || (n == events.len() && whats(eff.log)
            == emissions(config, events) + motion_of::<G>(config, eff.after)),
        eff.after == after_events::<G>(config, eff.before, events.take(n)),
        eff.outcome is Ok ==> {
            &&& n == events.len()
            &&& all_succeeded(eff.log)
            &&& whats(eff.log) == emissions(config, events) + motion_of::<G>(config, eff.after)
        },
{
    reveal(step_run);
    assert(events.take(events.len() as int) =~= events);
    if all_succeeded(eff.log) {
        if eff.log.len() > 0 {
            let shorter = eff.log.drop_last();
            assert forall|i: int| 0 <= i < shorter.len() implies (
            #[trigger] shorter[i]).succeeded() by {
                assert(shorter[i] == eff.log[i]);
            }
        }
        events.len() as int
    } else {
        choose|n: int|
            #![trigger events.take(n)]
            {
                &&& 0 <= n <= events.len()
                &&& eff.after == after_events::<G>(config, eff.before, events.take(n))
                &&& super::failed_at_event(config, events, n, eff.log) || (n == events.len()
                    && whats(eff.log) == emissions(config, events) + motion_of::<G>(
                    config,
                    eff.after,
                ) && motion_of::<G>(config, eff.after).len() > 0)
            }
    }
}

proof fn lemma_motion_kinds<G: Geometry>(
    config: DriverConfig,
    st: DriverState<G::Size, G::Pose>,
)
    ensures
        kinds(motion_of::<G>(config, st)).len() == motion_of::<G>(config, st).len(),
        motion_of::<G>(config, st).len() <= 1,
        strokes(motion_of::<G>(config, st)).len() == 0,
        motion_of::<G>(config, st).len() == 1 ==> motion_of::<G>(config, st)[0]
            == Emission::Pointer(kinds(motion_of::<G>(config, st))[0]),
{
    reveal_with_fuel(kinds, 2);
    reveal_with_fuel(strokes, 2);
    let m = motion_of::<G>(config, st);
    if m.len() > 0 {
        assert(m.drop_last() =~= Seq::<Emission>::empty());
    }
}

/// A click of the pointing hand goes to the pointer as it came: every pull of its trigger
/// presses the configured button and every letting go releases it, in order, and no other
/// event of a hand does either. Where the step fails, the first of them have gone there.
pub proof fn law_clicks_reach_the_pointer_as_they_came<
    G: Geometry,
    C: Clock,
    I: IdGen,
    F: FrameSource,
    Q: PointerSink,
    K: KeyboardSink,
    Z: Sleeper,
    X: XrSession<G::Size, G::Pose>,
>(
    d0: PanelDriver<G, C, I, F, Q, K, Z>,
    d1: PanelDriver<G, C, I, F, Q, K, Z>,
    s0: X,
    s1: X,
    outcome: Result<StepOutcome<G::Point>, ErrorView>,
    events: Seq<XrEvent<G::Pose>>,
)
    requires
        stepped(d0, d1, s0, s1, outcome),
        s1.asked().len() > s0.asked().len(),
        s1.asked()[s0.asked().len() as int] == SessionCall::<G::Size, G::Pose>::Polled(Ok(events)),
    ensures
        ({
            let clicks = triggers_of(d0.settings().pointer_controller, events);
            let before = d0.gear().pointer.pointer_offered();
            let offered = d1.gear().pointer.pointer_offered();
            &&& before.len() <= offered.len() <= before.len() + clicks.len() + 1
            &&& offered.take(before.len() as int) == before
            &&& outcome is Ok ==> offered.len() >= before.len() + clicks.len()
            &&& forall|i: int|
                0 <= i < clicks.len() && before.len() + i < offered.len() ==> {
                    let kind = offered[before.len() + i].event.kind;
                    &&& #[trigger] clicks[i] is PointerButton
                    &&& clicks[i]->PointerButton_state is Pressed ==> kind
                        == (PointerEventKind::Button {
                        button: d0.settings().click_button,
                        state: ButtonState::Pressed,
                    })
                    &&& clicks[i]->PointerButton_state is Released ==> kind
                        == (PointerEventKind::Button {
                        button: d0.settings().click_button,
                        state: ButtonState::Released,
                    })
                }
        }),
{
    let config = d0.settings();
    let eff = choose|eff: StepEffect<G::Size, G::Pose, G::Point>| #[trigger]
        stepped_by(d0, d1, s0, s1, eff) && eff.outcome == outcome;
    assert(eff.asked[0] == s1.asked()[s0.asked().len() as int]) by {
        reveal(step_run);
    }
    let n = lemma_log_of_a_step::<G>(config, d0.source(), s0.presents(), eff, events);
    lemma_offered(eff.log);
    lemma_emitted_kinds(config, events);
    lemma_emitted_kinds(config, events.take(n));
    lemma_earlier_triggers(config.pointer_controller, events, n);
    lemma_kinds_concat(emissions(config, events), motion_of::<G>(config, eff.after));
    lemma_motion_kinds::<G>(config, eff.after);
    let clicks = triggers_of(config.pointer_controller, events);
    let before = d0.gear().pointer.pointer_offered();
    let offered = d1.gear().pointer.pointer_offered();
    assert(offered.take(before.len() as int) =~= before);
    assert forall|i: int|
        0 <= i < clicks.len() && before.len() + i < offered.len() implies {
        let kind = offered[before.len() + i].event.kind;
        &&& #[trigger] clicks[i] is PointerButton
        &&& clicks[i]->PointerButton_state is Pressed ==> kind == (PointerEventKind::Button {
            button: d0.settings().click_button,
            state: ButtonState::Pressed,
        })
        &&& clicks[i]->PointerButton_state is Released ==> kind == (PointerEventKind::Button {
            button: d0.settings().click_button,
            state: ButtonState::Released,
        })
    } by {
        assert(offered[before.len() + i] == pointer_part(eff.log)[i]);
        if n < events.len() {
            assert(triggers_of(config.pointer_controller, events.take(n))[i] == clicks[i]);
        } else {
            assert(events.take(n) =~= events);
        }
    }
}

/// Every key goes to the keyboard as it came: its number, and whether it went down or up, in
/// order, and nothing else goes there. Where the step fails, the first of them have.
pub proof fn law_keys_reach_the_keyboard_as_they_came<
    G: Geometry,
    C: Clock,
    I: IdGen,
    F: FrameSource,
    Q: PointerSink,
    K: KeyboardSink,
    Z: Sleeper,
    X: XrSession<G::Size, G::Pose>,
>(
    d0: PanelDriver<G, C, I, F, Q, K, Z>,
    d1: PanelDriver<G, C, I, F, Q, K, Z>,
    s0: X,
    s1: X,
    outcome: Result<StepOutcome<G::Point>, ErrorView>,
    events: Seq<XrEvent<G::Pose>>,
)
    requires
        stepped(d0, d1, s0, s1, outcome),
        s1.asked().len() > s0.asked().len(),
        s1.asked()[s0.asked().len() as int] == SessionCall::<G::Size, G::Pose>::Polled(Ok(events)),
    ensures
        ({
            let typed = keys_among(events);
            let before = d0.gear().keyboard.keys_offered();
            let offered = d1.gear().keyboard.keys_offered();
            &&& before.len() <= offered.len() <= before.len() + typed.len()
            &&& offered.take(before.len() as int) == before
            &&& outcome is Ok ==> offered.len() == before.len() + typed.len()
            &&& forall|i: int|
                0 <= i < typed.len() && before.len() + i < offered.len() ==> {
                    let event = offered[before.len() + i].event;
                    &&& #[trigger] typed[i] is Key
                    &&& event.keycode == typed[i]->keycode
                    &&& event.state is Pressed <==> typed[i]->Key_state is Pressed
                }
        }),
{
    let config = d0.settings();
    let eff = choose|eff: StepEffect<G::Size, G::Pose, G::Point>| #[trigger]
        stepped_by(d0, d1, s0, s1, eff) && eff.outcome == outcome;
    assert(eff.asked[0] == s1.asked()[s0.asked().len() as int]) by {
        reveal(step_run);
    }
    let n = lemma_log_of_a_step::<G>(config, d0.source(), s0.presents(), eff, events);
    lemma_offered(eff.log);
    lemma_emitted_kinds(config, events);
    lemma_emitted_kinds(config, events.take(n));
    lemma_earlier_triggers(config.pointer_controller, events, n);
    lemma_kinds_concat(emissions(config, events), motion_of::<G>(config, eff.after));
    lemma_motion_kinds::<G>(config, eff.after);
    let typed = keys_among(events);
    let before = d0.gear().keyboard.keys_offered();
    let offered = d1.gear().keyboard.keys_offered();
    assert(offered.take(before.len() as int) =~= before);
    assert forall|i: int| 0 <= i < typed.len() && before.len() + i < offered.len() implies {
        let event = offered[before.len() + i].event;
        &&& #[trigger] typed[i] is Key
        &&& event.keycode == typed[i]->keycode
        &&& event.state is Pressed <==> typed[i]->Key_state is Pressed
    } by {
        assert(offered[before.len() + i] == key_part(eff.log)[i]);
        if n < events.len() {
            assert(keys_among(events.take(n))[i] == typed[i]);
        } else {
            assert(events.take(n) =~= events);
        }
    }
}

/// A step that succeeds ends with the motion of the cursor: where the cursor is at a point, on
/// the panel or dragged beyond its edge, the last that the pointer hears is the pixel of that
/// point, after all clicks; where it is nowhere, the pointer hears of the clicks alone.
pub proof fn law_cursor_moves_the_pointer<
    G: Geometry,
    C: Clock,
    I: IdGen,
    F: FrameSource,
    Q: PointerSink,
    K: KeyboardSink,
    Z: Sleeper,
    X: XrSession<G::Size, G::Pose>,
>(
    d0: PanelDriver<G, C, I, F, Q, K, Z>,
    d1: PanelDriver<G, C, I, F, Q, K, Z>,
    s0: X,
    s1: X,
    outcome: Result<StepOutcome<G::Point>, ErrorView>,
    events: Seq<XrEvent<G::Pose>>,
)
    requires
        stepped(d0, d1, s0, s1, outcome),
        s1.asked().len() > s0.asked().len(),
        s1.asked()[s0.asked().len() as int] == SessionCall::<G::Size, G::Pose>::Polled(Ok(events)),
        outcome is Ok,
    ensures
        ({
            let clicks = triggers_of(d0.settings().pointer_controller, events);
            let before = d0.gear().pointer.pointer_offered();
            let offered = d1.gear().pointer.pointer_offered();
            let panel = d1.snapshot().panel;
            match outcome->Ok_0.cursor {
                Some(CursorResolution::OnPanel(point))
                | Some(CursorResolution::BeyondEdgeWhileHeld(point)) => {
                    let px = G::pixel(panel.size, panel.resolution, point);
                    &&& offered.len() == before.len() + clicks.len() + 1
                    &&& offered.last().event.kind == (PointerEventKind::MotionAbsolute {
                        x_px: px.x,
                        y_px: px.y,
                    })
                },
                Some(CursorResolution::OffPanel) | None => offered.len() == before.len()
                    + clicks.len(),
            }
        }),
{
    let config = d0.settings();
    let eff = choose|eff: StepEffect<G::Size, G::Pose, G::Point>| #[trigger]
        stepped_by(d0, d1, s0, s1, eff) && eff.outcome == outcome;
    assert(eff.asked[0] == s1.asked()[s0.asked().len() as int]) by {
        reveal(step_run);
    }
    let n = lemma_log_of_a_step::<G>(config, d0.source(), s0.presents(), eff, events);
    lemma_offered(eff.log);
    lemma_emitted_kinds(config, events);
    lemma_kinds_concat(emissions(config, events), motion_of::<G>(config, eff.after));
    lemma_motion_kinds::<G>(config, eff.after);
    reveal(step_run);
    let offered = d1.gear().pointer.pointer_offered();
    let before = d0.gear().pointer.pointer_offered();
    if motion_of::<G>(config, eff.after).len() == 1 {
        let last = pointer_part(eff.log).len() - 1;
        assert(offered.last() == pointer_part(eff.log)[last]);
    }
}

/// The driver after some events, each applied to what the one before it left.
pub open spec fn applied<G: Geometry>(
    config: DriverConfig,
    st: DriverState<G::Size, G::Pose>,
    events: Seq<XrEvent<G::Pose>>,
) -> DriverState<G::Size, G::Pose> {
    events.fold_left(
        st,
        |now: DriverState<G::Size, G::Pose>, event: XrEvent<G::Pose>|
            after_event::<G>(config, now, event),
    )
}

proof fn lemma_applied<G: Geometry>(
    config: DriverConfig,
    st: DriverState<G::Size, G::Pose>,
    events: Seq<XrEvent<G::Pose>>,
)
    ensures
        applied::<G>(config, st, events) == after_events::<G>(config, st, events),
    decreases events.len(),
{
    reveal_with_fuel(Seq::fold_left, 2);
    if events.len() > 0 {
        lemma_applied::<G>(config, st, events.drop_last());
    }
}

/// A step applies the events that it polled one after the other, none left out and none
/// twice: all of them where it succeeds, the first of them where it fails.
pub proof fn law_events_are_applied_in_order<
    G: Geometry,
    C: Clock,
    I: IdGen,
    F: FrameSource,
    Q: PointerSink,
    K: KeyboardSink,
    Z: Sleeper,
    X: XrSession<G::Size, G::Pose>,
>(
    d0: PanelDriver<G, C, I, F, Q, K, Z>,
    d1: PanelDriver<G, C, I, F, Q, K, Z>,
    s0: X,
    s1: X,
    outcome: Result<StepOutcome<G::Point>, ErrorView>,
    events: Seq<XrEvent<G::Pose>>,
)
    requires
        stepped(d0, d1, s0, s1, outcome),
        s1.asked().len() > s0.asked().len(),
        s1.asked()[s0.asked().len() as int] == SessionCall::<G::Size, G::Pose>::Polled(Ok(events)),
    ensures
        outcome is Ok ==> d1.snapshot() == applied::<G>(d0.settings(), d0.snapshot(), events),
        exists|n: int|
            0 <= n <= events.len() && d1.snapshot() == applied::<G>(
                d0.settings(),
                d0.snapshot(),
                #[trigger] events.take(n),
            ),
{
    let config = d0.settings();
    let eff = choose|eff: StepEffect<G::Size, G::Pose, G::Point>| #[trigger]
        stepped_by(d0, d1, s0, s1, eff) && eff.outcome == outcome;
    assert(eff.asked[0] == s1.asked()[s0.asked().len() as int]) by {
        reveal(step_run);
    }
    let n = lemma_log_of_a_step::<G>(config, d0.source(), s0.presents(), eff, events);
    lemma_applied::<G>(config, d0.snapshot(), events.take(n));
    lemma_applied::<G>(config, d0.snapshot(), events);
    assert(events.take(events.len() as int) =~= events);
}

/// The hand that holds the panel carries it, whichever hand it is and whichever hand points:
/// the panel stands in the world where the new pose of the hand and the offset of the grab
/// put it, and everything else of it stays.
pub proof fn law_holder_carries_the_panel<G: Geometry>(
    config: DriverConfig,
    st: DriverState<G::Size, G::Pose>,
    controller: ControllerId,
    offset: G::Pose,
    pose: G::Pose,
)
    requires
        st.grab == (GrabState::Held { controller, offset }),
    ensures
        ({
            let after = after_event::<G>(
                config,
                st,
                XrEvent::ControllerPose { controller, pose },
            );
            &&& after.panel.pose.frame == PoseFrame::World
            &&& after.panel.pose.pose == G::carried(pose, offset)
            &&& after.panel.size == st.panel.size
            &&& after.panel.resolution == st.panel.resolution
            &&& after.grab == st.grab
        }),
{
}

/// A hand that does not hold the panel does not move it.
pub proof fn law_other_hand_carries_nothing<G: Geometry>(
    config: DriverConfig,
    st: DriverState<G::Size, G::Pose>,
    controller: ControllerId,
    pose: G::Pose,
)
    requires
        st.grab matches GrabState::Held { controller: holder, .. } ==> holder != controller,
    ensures
        ({
            let after = after_event::<G>(
                config,
                st,
                XrEvent::ControllerPose { controller, pose },
            );
            after.panel == st.panel && after.grab == st.grab
        }),
{
}

/// The last pose of each hand is remembered, and that of the other hand, the button and the
/// session stay as they are.
pub proof fn law_pose_of_a_hand_is_remembered<G: Geometry>(
    config: DriverConfig,
    st: DriverState<G::Size, G::Pose>,
    controller: ControllerId,
    pose: G::Pose,
)
    ensures
        ({
            let after = after_event::<G>(
                config,
                st,
                XrEvent::ControllerPose { controller, pose },
            );
            &&& after.hold == st.hold
            &&& after.state == st.state
            &&& controller is Left ==> after.poses.left == Some(pose) && after.poses.right
                == st.poses.right
            &&& controller is Right ==> after.poses.right == Some(pose) && after.poses.left
                == st.poses.left
        }),
{
}

/// Either hand takes the panel, once it was seen: at the offset that the panel then has from
/// it, without moving anything, and also out of the other hand. A hand that was never seen
/// takes nothing.
pub proof fn law_either_hand_takes_the_panel<G: Geometry>(
    config: DriverConfig,
    st: DriverState<G::Size, G::Pose>,
    controller: ControllerId,
)
    ensures
        ({
            let after = after_event::<G>(
                config,
                st,
                XrEvent::GrabButton { controller, state: PressState::Pressed },
            );
            let seen = if controller is Left {
                st.poses.left
            } else {
                st.poses.right
            };
            &&& after.panel == st.panel
            &&& after.poses == st.poses
            &&& after.hold == st.hold
            &&& after.state == st.state
            &&& seen is None ==> after.grab == st.grab
            &&& seen matches Some(hand) ==> after.grab == (GrabState::Held {
                controller,
                offset: G::offset(hand, st.panel.pose.pose),
            })
        }),
{
}

/// The hand that holds the panel leaves it where it is when it lets go.
pub proof fn law_letting_go_leaves_the_panel<G: Geometry>(
    config: DriverConfig,
    st: DriverState<G::Size, G::Pose>,
    controller: ControllerId,
    offset: G::Pose,
)
    requires
        st.grab == (GrabState::Held { controller, offset }),
    ensures
        ({
            let after = after_event::<G>(
                config,
                st,
                XrEvent::GrabButton { controller, state: PressState::Released },
            );
            &&& after.grab is Released
            &&& after.panel == st.panel
            &&& after.poses == st.poses
            &&& after.hold == st.hold
            &&& after.state == st.state
        }),
{
}

/// The trigger of the pointing hand holds the button down from its pull to its letting go,
/// and moves nothing.
pub proof fn law_trigger_holds_the_button<G: Geometry>(
    config: DriverConfig,
    st: DriverState<G::Size, G::Pose>,
    state: PressState,
)
    ensures
        ({
            let after = after_event::<G>(
                config,
                st,
                XrEvent::PointerButton { controller: config.pointer_controller, state },
            );
            &&& state is Pressed ==> after.hold == PointerHold::Down
            &&& state is Released ==> after.hold == PointerHold::Up
            &&& after.panel == st.panel
            &&& after.grab == st.grab
            &&& after.poses == st.poses
            &&& after.state == st.state
        }),
{
}

/// A key changes nothing of the driver, and what the session says of itself changes that
/// alone.
pub proof fn law_session_and_keys_move_nothing<G: Geometry>(
    config: DriverConfig,
    st: DriverState<G::Size, G::Pose>,
    said: SessionState,
    keycode: Keycode,
    state: PressState,
)
    ensures
        after_event::<G>(config, st, XrEvent::Key { keycode, state }) == st,
        ({
            let after = after_event::<G>(config, st, XrEvent::StateChanged(said));
            &&& after.state == said
            &&& after.panel == st.panel
            &&& after.grab == st.grab
            &&& after.hold == st.hold
            &&& after.poses == st.poses
        }),
{
}

/// A hand that takes the panel and moves carries it along, and leaves it there when it lets
/// go, however the other hand moves meanwhile and whichever of them points.
pub proof fn law_taken_carried_and_left<G: Geometry>(
    config: DriverConfig,
    st: DriverState<G::Size, G::Pose>,
    controller: ControllerId,
    other: ControllerId,
    at_first: G::Pose,
    of_the_other: G::Pose,
    at_last: G::Pose,
    later: G::Pose,
)
    requires
        other != controller,
        st.grab is Released,
    ensures
        applied::<G>(
            config,
            st,
            seq![
                XrEvent::ControllerPose { controller, pose: at_first },
                XrEvent::GrabButton { controller, state: PressState::Pressed },
                XrEvent::ControllerPose { controller: other, pose: of_the_other },
                XrEvent::ControllerPose { controller, pose: at_last },
                XrEvent::GrabButton { controller, state: PressState::Released },
                XrEvent::ControllerPose { controller, pose: later },
            ],
        ).panel.pose == (PanelPose {
            frame: PoseFrame::World,
            pose: G::carried(at_last, G::offset(at_first, st.panel.pose.pose)),
        }),
{
    let events = seq![
        XrEvent::ControllerPose { controller, pose: at_first },
        XrEvent::GrabButton { controller, state: PressState::Pressed },
        XrEvent::ControllerPose { controller: other, pose: of_the_other },
        XrEvent::ControllerPose { controller, pose: at_last },
        XrEvent::GrabButton { controller, state: PressState::Released },
        XrEvent::ControllerPose { controller, pose: later },
    ];
    lemma_applied::<G>(config, st, events);
    reveal_with_fuel(after_events, 7);
    assert(events.drop_last().drop_last().drop_last().drop_last().drop_last().drop_last()
        =~= Seq::empty());
}

/// What a step that succeeds tells: how many events there were, where the session stands,
/// whether one of the events was that it stops, and on which composition the frame was shown,
/// if one was.
pub proof fn law_outcome_tells_what_happened<
    G: Geometry,
    C: Clock,
    I: IdGen,
    F: FrameSource,
    Q: PointerSink,
    K: KeyboardSink,
    Z: Sleeper,
    X: XrSession<G::Size, G::Pose>,
>(
    d0: PanelDriver<G, C, I, F, Q, K, Z>,
    d1: PanelDriver<G, C, I, F, Q, K, Z>,
    s0: X,
    s1: X,
    outcome: Result<StepOutcome<G::Point>, ErrorView>,
    events: Seq<XrEvent<G::Pose>>,
)
    requires
        stepped(d0, d1, s0, s1, outcome),
        s1.asked().len() > s0.asked().len(),
        s1.asked()[s0.asked().len() as int] == SessionCall::<G::Size, G::Pose>::Polled(Ok(events)),
        outcome is Ok,
    ensures
        events.len() <= usize::MAX ==> outcome->Ok_0.applied_events == events.len(),
        outcome->Ok_0.state == d1.snapshot().state,
        outcome->Ok_0.stopping <==> events.contains(
            XrEvent::<G::Pose>::StateChanged(SessionState::Stopping),
        ),
        outcome->Ok_0.plan is Some <==> s0.presents(),
        outcome->Ok_0.plan matches Some(plan) ==> plan.panel_layers == 1,
{
    let eff = choose|eff: StepEffect<G::Size, G::Pose, G::Point>| #[trigger]
        stepped_by(d0, d1, s0, s1, eff) && eff.outcome == outcome;
    reveal(step_run);
    assert(eff.asked[0] == s1.asked()[s0.asked().len() as int]);
    let stop = XrEvent::<G::Pose>::StateChanged(SessionState::Stopping);
    if events.contains(stop) {
        let i = choose|i: int| 0 <= i < events.len() && events[i] == stop;
        assert(events[i] == stop);
    }
}

/// The cursor that a step tells of: none until the pointing hand was seen; else the foot of
/// the perpendicular from it onto the panel as it stands after the step, if that lies on the
/// panel or the button is held, and nowhere if not.
pub proof fn law_cursor_is_that_of_the_pointing_hand<
    G: Geometry,
    C: Clock,
    I: IdGen,
    F: FrameSource,
    Q: PointerSink,
    K: KeyboardSink,
    Z: Sleeper,
    X: XrSession<G::Size, G::Pose>,
>(
    d0: PanelDriver<G, C, I, F, Q, K, Z>,
    d1: PanelDriver<G, C, I, F, Q, K, Z>,
    s0: X,
    s1: X,
    outcome: Result<StepOutcome<G::Point>, ErrorView>,
    events: Seq<XrEvent<G::Pose>>,
)
    requires
        stepped(d0, d1, s0, s1, outcome),
        s1.asked().len() > s0.asked().len(),
        s1.asked()[s0.asked().len() as int] == SessionCall::<G::Size, G::Pose>::Polled(Ok(events)),
        outcome is Ok,
    ensures
        ({
            let after = d1.snapshot();
            let seen = if d0.settings().pointer_controller is Left {
                after.poses.left
            } else {
                after.poses.right
            };
            match (seen, outcome->Ok_0.cursor) {
                (None, cursor) => cursor is None,
                (Some(hand), None) => false,
                (Some(hand), Some(CursorResolution::OnPanel(point))) => {
                    &&& point == G::projected(after.panel.pose.pose, hand)
                    &&& G::covers(after.panel.size, point)
                },
                (Some(hand), Some(CursorResolution::BeyondEdgeWhileHeld(point))) => {
                    &&& point == G::projected(after.panel.pose.pose, hand)
                    &&& !G::covers(after.panel.size, point)
                    &&& after.hold == PointerHold::Down
                },
                (Some(hand), Some(CursorResolution::OffPanel)) => {
                    &&& !G::covers(
                        after.panel.size,
                        G::projected(after.panel.pose.pose, hand),
                    )
                    &&& after.hold == PointerHold::Up
                },
            }
        }),
{
    let eff = choose|eff: StepEffect<G::Size, G::Pose, G::Point>| #[trigger]
        stepped_by(d0, d1, s0, s1, eff) && eff.outcome == outcome;
    reveal(step_run);
    assert(eff.asked[0] == s1.asked()[s0.asked().len() as int]);
}

/// A step that succeeds shows the frame that it captured of its own output, at the panel as
/// it stands after the step, where the session shows frames; else it captures nothing and
/// asks the session for its events alone.
pub proof fn law_step_shows_what_it_captured<
    G: Geometry,
    C: Clock,
    I: IdGen,
    F: FrameSource,
    Q: PointerSink,
    K: KeyboardSink,
    Z: Sleeper,
    X: XrSession<G::Size, G::Pose>,
>(
    d0: PanelDriver<G, C, I, F, Q, K, Z>,
    d1: PanelDriver<G, C, I, F, Q, K, Z>,
    s0: X,
    s1: X,
    outcome: Result<StepOutcome<G::Point>, ErrorView>,
    events: Seq<XrEvent<G::Pose>>,
)
    requires
        stepped(d0, d1, s0, s1, outcome),
        s1.asked().len() > s0.asked().len(),
        s1.asked()[s0.asked().len() as int] == SessionCall::<G::Size, G::Pose>::Polled(Ok(events)),
        outcome is Ok,
    ensures
        ({
            let asked = s1.asked();
            let first = s0.asked().len() as int;
            let captures = d1.gear().frames.captures();
            let before = d0.gear().frames.captures();
            if s0.presents() {
                &&& captures.len() == before.len() + 1
                &&& captures.drop_last() == before
                &&& captures.last().output == d0.source()
                &&& captures.last().outcome is Ok
                &&& asked.len() == first + 2
                &&& asked[first + 1] == (SessionCall::Submitted {
                    frame: captures.last().outcome->Ok_0,
                    panel: d1.snapshot().panel,
                    outcome: Ok(()),
                })
            } else {
                captures == before && asked.len() == first + 1
            }
        }),
{
    let eff = choose|eff: StepEffect<G::Size, G::Pose, G::Point>| #[trigger]
        stepped_by(d0, d1, s0, s1, eff) && eff.outcome == outcome;
    reveal(step_run);
    let asked = s1.asked();
    let first = s0.asked().len() as int;
    assert(eff.asked[0] == asked[first]);
    let captures = d1.gear().frames.captures();
    let before = d0.gear().frames.captures();
    if s0.presents() {
        assert(captures.drop_last() =~= before);
        assert(captures.last() == eff.captured[0]);
        assert(asked[first + 1] == eff.asked[1]);
        match eff.asked[1] {
            SessionCall::Submitted { frame, panel, outcome: shown } => {
                assert(frame == captures.last().outcome->Ok_0);
                assert(shown is Ok);
                assert(shown->Ok_0 == ());
                assert(shown == Ok::<(), ErrorView>(()));
            },
            _ => {},
        }
    } else {
        assert(captures =~= before);
    }
}

/// How many of some pointer events were taken as new.
pub open spec fn new_to_the_pointer(offered: Seq<PointerDeliveryView>) -> nat {
    offered.filter(
        |d: PointerDeliveryView| d.outcome == Ok::<Delivery, ErrorView>(Delivery::Delivered),
    ).len()
}

/// How many of some key events were taken as new.
pub open spec fn new_to_the_keyboard(offered: Seq<KeyDeliveryView>) -> nat {
    offered.filter(
        |d: KeyDeliveryView| d.outcome == Ok::<Delivery, ErrorView>(Delivery::Delivered),
    ).len()
}

/// The keys of some pointer events.
pub open spec fn pointer_keys(offered: Seq<PointerDeliveryView>) -> Seq<IdView> {
    Seq::new(offered.len(), |i: int| offered[i].event.idempotency_key)
}

/// The keys of some key events.
pub open spec fn keyboard_keys(offered: Seq<KeyDeliveryView>) -> Seq<IdView> {
    Seq::new(offered.len(), |i: int| offered[i].event.idempotency_key)
}

/// The identifiers among what was drawn, where nothing failed.
pub open spec fn identifiers(drawn: Seq<Result<IdView, ErrorView>>) -> Seq<IdView> {
    Seq::new(drawn.len(), |i: int| drawn[i]->Ok_0)
}

proof fn lemma_taken(log: Seq<Emitted>)
    requires
        all_succeeded(log),
    ensures
        forall|i: int|
            0 <= i < pointer_part(log).len() ==> (#[trigger] pointer_part(log)[i]).outcome is Ok,
        forall|i: int| 0 <= i < key_part(log).len() ==> (#[trigger] key_part(log)[i]).outcome is Ok,
        forall|i: int| 0 <= i < log.len() ==> (#[trigger] drawn_part(log)[i]) is Ok,
        pointer_count(log) == new_to_the_pointer(pointer_part(log)),
        key_count(log) == new_to_the_keyboard(key_part(log)),
        pointer_keys(pointer_part(log)).to_multiset().add(
            keyboard_keys(key_part(log)).to_multiset(),
        ) == identifiers(drawn_part(log)).to_multiset(),
    decreases log.len(),
{
    broadcast use vstd::seq_lib::group_to_multiset_ensures;

    reveal(Seq::filter);
    if log.len() == 0 {
        assert(pointer_keys(pointer_part(log)) =~= Seq::<IdView>::empty());
        assert(keyboard_keys(key_part(log)) =~= Seq::<IdView>::empty());
        assert(identifiers(drawn_part(log)) =~= Seq::<IdView>::empty());
        assert(Seq::<IdView>::empty().to_multiset().add(Seq::<IdView>::empty().to_multiset())
            =~= Seq::<IdView>::empty().to_multiset());
    } else {
        let earlier = log.drop_last();
        let last = log.last();
        assert forall|i: int| 0 <= i < earlier.len() implies (#[trigger] earlier[i]).succeeded() by {
            assert(earlier[i] == log[i]);
        }
        assert(log[log.len() - 1].succeeded());
        lemma_taken(earlier);
        let id = last.id->Ok_0;
        assert(identifiers(drawn_part(log)) =~= identifiers(drawn_part(earlier)).push(id));
        match last.what {
            Emission::Pointer(_) => {
                assert(pointer_part(log).drop_last() =~= pointer_part(earlier));
                assert(pointer_keys(pointer_part(log)) =~= pointer_keys(
                    pointer_part(earlier),
                ).push(id));
                assert(key_part(log) == key_part(earlier));
            },
            Emission::Key { .. } => {
                assert(key_part(log).drop_last() =~= key_part(earlier));
                assert(keyboard_keys(key_part(log)) =~= keyboard_keys(key_part(earlier)).push(id));
                assert(pointer_part(log) == pointer_part(earlier));
            },
        }
        assert(pointer_keys(pointer_part(log)).to_multiset().add(
            keyboard_keys(key_part(log)).to_multiset(),
        ) =~= identifiers(drawn_part(log)).to_multiset());
    }
}

/// A step that succeeds drew an identifier for every event that it handed over, and each
/// event bears one of its own: the keys of the events are the identifiers drawn, each once.
/// Nothing of it was refused, and it tells how many were taken as new.
pub proof fn law_every_event_has_a_key_of_its_own<
    G: Geometry,
    C: Clock,
    I: IdGen,
    F: FrameSource,
    Q: PointerSink,
    K: KeyboardSink,
    Z: Sleeper,
    X: XrSession<G::Size, G::Pose>,
>(
    d0: PanelDriver<G, C, I, F, Q, K, Z>,
    d1: PanelDriver<G, C, I, F, Q, K, Z>,
    s0: X,
    s1: X,
    outcome: StepOutcome<G::Point>,
)
    requires
        stepped(d0, d1, s0, s1, Ok(outcome)),
    ensures
        ({
            let pointed = d1.gear().pointer.pointer_offered().skip(
                d0.gear().pointer.pointer_offered().len() as int,
            );
            let typed = d1.gear().keyboard.keys_offered().skip(
                d0.gear().keyboard.keys_offered().len() as int,
            );
            let drawn = d1.gear().ids.drawn().skip(d0.gear().ids.drawn().len() as int);
            &&& drawn.len() == pointed.len() + typed.len()
            &&& forall|i: int| 0 <= i < drawn.len() ==> (#[trigger] drawn[i]) is Ok
            &&& forall|i: int| 0 <= i < pointed.len() ==> (#[trigger] pointed[i]).outcome is Ok
            &&& forall|i: int| 0 <= i < typed.len() ==> (#[trigger] typed[i]).outcome is Ok
            &&& pointer_keys(pointed).to_multiset().add(keyboard_keys(typed).to_multiset())
                == identifiers(drawn).to_multiset()
            &&& new_to_the_pointer(pointed) <= usize::MAX ==> outcome.pointer_deliveries
                == new_to_the_pointer(pointed)
            &&& new_to_the_keyboard(typed) <= usize::MAX ==> outcome.key_deliveries
                == new_to_the_keyboard(typed)
        }),
{
    let eff = choose|eff: StepEffect<G::Size, G::Pose, G::Point>| #[trigger]
        stepped_by(d0, d1, s0, s1, eff) && eff.outcome == Ok::<StepOutcome<G::Point>, ErrorView>(
            outcome,
        );
    reveal(step_run);
    lemma_taken(eff.log);
    lemma_part_lengths(eff.log);
    let pointed = d1.gear().pointer.pointer_offered().skip(
        d0.gear().pointer.pointer_offered().len() as int,
    );
    let typed = d1.gear().keyboard.keys_offered().skip(
        d0.gear().keyboard.keys_offered().len() as int,
    );
    let drawn = d1.gear().ids.drawn().skip(d0.gear().ids.drawn().len() as int);
    assert(pointed =~= pointer_part(eff.log));
    assert(typed =~= key_part(eff.log));
    assert(drawn =~= drawn_part(eff.log));
}

proof fn lemma_part_lengths(log: Seq<Emitted>)
    requires
        all_succeeded(log),
    ensures
        pointer_part(log).len() + key_part(log).len() == log.len(),
    decreases log.len(),
{
    if log.len() > 0 {
        let earlier = log.drop_last();
        assert forall|i: int| 0 <= i < earlier.len() implies (#[trigger] earlier[i]).succeeded() by {
            assert(earlier[i] == log[i]);
        }
        assert(log[log.len() - 1].succeeded());
        lemma_part_lengths(earlier);
    }
}

/// A step that cannot poll changes nothing, hands nothing over and tells why.
pub proof fn law_failed_poll_changes_nothing<
    G: Geometry,
    C: Clock,
    I: IdGen,
    F: FrameSource,
    Q: PointerSink,
    K: KeyboardSink,
    Z: Sleeper,
    X: XrSession<G::Size, G::Pose>,
>(
    d0: PanelDriver<G, C, I, F, Q, K, Z>,
    d1: PanelDriver<G, C, I, F, Q, K, Z>,
    s0: X,
    s1: X,
    outcome: Result<StepOutcome<G::Point>, ErrorView>,
    e: ErrorView,
)
    requires
        stepped(d0, d1, s0, s1, outcome),
        s1.asked().len() > s0.asked().len(),
        s1.asked()[s0.asked().len() as int] == SessionCall::<G::Size, G::Pose>::Polled(Err(e)),
    ensures
        outcome == Err::<StepOutcome<G::Point>, ErrorView>(e),
        d1.snapshot() == d0.snapshot(),
        d1.gear().ids.drawn() == d0.gear().ids.drawn(),
        d1.gear().pointer.pointer_offered() == d0.gear().pointer.pointer_offered(),
        d1.gear().keyboard.keys_offered() == d0.gear().keyboard.keys_offered(),
        d1.gear().frames.captures() == d0.gear().frames.captures(),
        s1.asked().len() == s0.asked().len() + 1,
{
    let eff = choose|eff: StepEffect<G::Size, G::Pose, G::Point>| #[trigger]
        stepped_by(d0, d1, s0, s1, eff) && eff.outcome == outcome;
    reveal(step_run);
    assert(eff.asked[0] == s1.asked()[s0.asked().len() as int]);
    assert(d1.gear().ids.drawn() =~= d0.gear().ids.drawn());
    assert(d1.gear().pointer.pointer_offered() =~= d0.gear().pointer.pointer_offered());
    assert(d1.gear().keyboard.keys_offered() =~= d0.gear().keyboard.keys_offered());
    assert(d1.gear().frames.captures() =~= d0.gear().frames.captures());
}

/// The error that a step tells is that of the last thing it asked for: an identifier, a
/// delivery to the pointer or to the keyboard, a frame, or the session itself.
pub proof fn law_error_is_that_of_the_last_request<
    G: Geometry,
    C: Clock,
    I: IdGen,
    F: FrameSource,
    Q: PointerSink,
    K: KeyboardSink,
    Z: Sleeper,
    X: XrSession<G::Size, G::Pose>,
>(
    d0: PanelDriver<G, C, I, F, Q, K, Z>,
    d1: PanelDriver<G, C, I, F, Q, K, Z>,
    s0: X,
    s1: X,
    e: ErrorView,
)
    requires
        stepped(d0, d1, s0, s1, Err(e)),
    ensures
        ({
            let gear = d1.gear();
            ||| s1.asked().last() == SessionCall::<G::Size, G::Pose>::Polled(Err(e))
            ||| gear.ids.drawn().len() > 0 && gear.ids.drawn().last() == Err::<IdView, ErrorView>(e)
            ||| gear.pointer.pointer_offered().len() > 0
                && gear.pointer.pointer_offered().last().outcome == Err::<Delivery, ErrorView>(e)
            ||| gear.keyboard.keys_offered().len() > 0 && gear.keyboard.keys_offered().last().outcome
                == Err::<Delivery, ErrorView>(e)
            ||| gear.frames.captures().len() > 0 && gear.frames.captures().last().outcome is Err
                && gear.frames.captures().last().outcome->Err_0 == e
            ||| s1.asked().last() is Submitted && s1.asked().last()->outcome == Err::<
                (),
                ErrorView,
            >(e)
        }),
{
    let eff = choose|eff: StepEffect<G::Size, G::Pose, G::Point>| #[trigger]
        stepped_by(d0, d1, s0, s1, eff) && eff.outcome == Err::<StepOutcome<G::Point>, ErrorView>(
            e,
        );
    reveal(step_run);
    assert(s1.asked().last() == eff.asked.last());
    if !all_succeeded(eff.log) && eff.log.len() > 0 {
        let last = eff.log.last();
        assert(!last.succeeded()) by {
            if last.succeeded() {
                assert forall|i: int| 0 <= i < eff.log.len() implies (
                #[trigger] eff.log[i]).succeeded() by {
                    if i < eff.log.len() - 1 {
                        assert(eff.log.drop_last()[i] == eff.log[i]);
                    }
                }
            }
        }
        assert(d1.gear().ids.drawn().last() == drawn_part(eff.log).last());
        if last.id is Ok {
            match last.what {
                Emission::Pointer(_) => {
                    assert(d1.gear().pointer.pointer_offered().last() == pointer_part(
                        eff.log,
                    ).last());
                },
                Emission::Key { .. } => {
                    assert(d1.gear().keyboard.keys_offered().last() == key_part(eff.log).last());
                },
            }
        }
    }
    if eff.captured.len() > 0 {
        assert(d1.gear().frames.captures().last() == eff.captured.last());
    }
}

proof fn lemma_all_taken(log: Seq<Emitted>)
    requires
        all_succeeded(log),
    ensures
        forall|i: int|
            0 <= i < pointer_part(log).len() ==> (#[trigger] pointer_part(log)[i]).outcome is Ok,
        forall|i: int| 0 <= i < key_part(log).len() ==> (#[trigger] key_part(log)[i]).outcome is Ok,
        forall|i: int| 0 <= i < drawn_part(log).len() ==> #[trigger] drawn_part(log)[i] is Ok,
    decreases log.len(),
{
    if log.len() > 0 {
        let less = log.drop_last();
        assert(log.last() == log[log.len() - 1]);
        assert(log.last().succeeded());
        assert forall|i: int| 0 <= i < less.len() implies (#[trigger] less[i]).succeeded() by {
            assert(less[i] == log[i]);
        }
        lemma_all_taken(less);
        assert forall|i: int| 0 <= i < pointer_part(log).len() implies (
        #[trigger] pointer_part(log)[i]).outcome is Ok by {
            if i < pointer_part(less).len() {
                assert(pointer_part(log)[i] == pointer_part(less)[i]);
            }
        }
        assert forall|i: int| 0 <= i < key_part(log).len() implies (
        #[trigger] key_part(log)[i]).outcome is Ok by {
            if i < key_part(less).len() {
                assert(key_part(log)[i] == key_part(less)[i]);
            }
        }
        assert forall|i: int| 0 <= i < drawn_part(log).len() implies #[trigger] drawn_part(log)[i]
            is Ok by {
            assert(log[i].succeeded());
        }
    }
}

/// An event that is refused ends the step: it fails, no frame is captured, and nothing but its
/// events is asked of the session.
pub proof fn law_refused_event_ends_the_step<
    G: Geometry,
    C: Clock,
    I: IdGen,
    F: FrameSource,
    Q: PointerSink,
    K: KeyboardSink,
    Z: Sleeper,
    X: XrSession<G::Size, G::Pose>,
>(
    d0: PanelDriver<G, C, I, F, Q, K, Z>,
    d1: PanelDriver<G, C, I, F, Q, K, Z>,
    s0: X,
    s1: X,
    outcome: Result<StepOutcome<G::Point>, ErrorView>,
    at: int,
)
    requires
        stepped(d0, d1, s0, s1, outcome),
        ({
            ||| d0.gear().pointer.pointer_offered().len() <= at
                < d1.gear().pointer.pointer_offered().len()
                && d1.gear().pointer.pointer_offered()[at].outcome is Err
            ||| d0.gear().keyboard.keys_offered().len() <= at
                < d1.gear().keyboard.keys_offered().len()
                && d1.gear().keyboard.keys_offered()[at].outcome is Err
            ||| d0.gear().ids.drawn().len() <= at < d1.gear().ids.drawn().len()
                && d1.gear().ids.drawn()[at] is Err
        }),
    ensures
        outcome is Err,
        d1.gear().frames.captures() == d0.gear().frames.captures(),
        s1.asked().len() == s0.asked().len() + 1,
        s1.asked().last() is Polled,
{
    let eff = choose|eff: StepEffect<G::Size, G::Pose, G::Point>| #[trigger]
        stepped_by(d0, d1, s0, s1, eff) && eff.outcome == outcome;
    reveal(step_run);
    if all_succeeded(eff.log) {
        lemma_all_taken(eff.log);
        let p = at - d0.gear().pointer.pointer_offered().len();
        let k = at - d0.gear().keyboard.keys_offered().len();
        let i = at - d0.gear().ids.drawn().len();
        if 0 <= p < pointer_part(eff.log).len() {
            assert(pointer_part(eff.log)[p].outcome is Ok);
        }
        if 0 <= k < key_part(eff.log).len() {
            assert(key_part(eff.log)[k].outcome is Ok);
        }
        if 0 <= i < drawn_part(eff.log).len() {
            assert(drawn_part(eff.log)[i] is Ok);
        }
    }
    assert(d1.gear().frames.captures() =~= d0.gear().frames.captures());
    assert(s1.asked().last() == eff.asked[0]);
}

/// A run waits once after every step that neither failed nor met the end, each time as long
/// as it is set to, and asks the session for its events once for each step.
pub proof fn law_run_waits_between_steps<
    G: Geometry,
    C: Clock,
    I: IdGen,
    F: FrameSource,
    Q: PointerSink,
    K: KeyboardSink,
    Z: Sleeper,
    X: XrSession<G::Size, G::Pose>,
>(
    d0: PanelDriver<G, C, I, F, Q, K, Z>,
    d1: PanelDriver<G, C, I, F, Q, K, Z>,
    s0: X,
    s1: X,
    steps: Seq<StepEffect<G::Size, G::Pose, G::Point>>,
)
    requires
        ran_by(d0, d1, s0, s1, steps),
        steps.len() > 0,
    ensures
        ({
            let slept = d1.gear().sleeper.slept();
            let before = d0.gear().sleeper.slept().len();
            let ended = steps.last().outcome is Err || steps.last().outcome->Ok_0.stopping;
            &&& slept.len() == before + steps.len() - if ended {
                1int
            } else {
                0int
            }
            &&& forall|i: int|
                before <= i < slept.len() ==> #[trigger] slept[i]
                    == d0.settings().step_interval_millis
            &&& forall|i: int|
                0 <= i < steps.len() - 1 ==> (#[trigger] steps[i]).outcome is Ok
                    && !steps[i].outcome->Ok_0.stopping
            &&& polls(s1.asked()) == polls(s0.asked()) + steps.len()
        }),
{
    lemma_polls_concat(s0.asked(), super::asked_in(steps));
    lemma_polls_of_steps::<G>(
        d0.settings(),
        d0.source(),
        s0.presents(),
        d0.snapshot(),
        steps,
    );
    assert forall|i: int| 0 <= i < steps.len() - 1 implies (#[trigger] steps[i]).outcome is Ok
        && !steps[i].outcome->Ok_0.stopping by {
        assert(super::goes_on(steps[i]));
    }
}

/// How often a session was asked for its events.
pub open spec fn polls<S, P>(asked: Seq<SessionCall<S, P>>) -> nat
    decreases asked.len(),
{
    if asked.len() == 0 {
        0
    } else {
        polls(asked.drop_last()) + if asked.last() is Polled {
            1nat
        } else {
            0nat
        }
    }
}

proof fn lemma_polls_concat<S, P>(a: Seq<SessionCall<S, P>>, b: Seq<SessionCall<S, P>>)
    ensures
        polls(a + b) == polls(a) + polls(b),
    decreases b.len(),
{
    if b.len() == 0 {
        assert(a + b =~= a);
    } else {
        assert((a + b).drop_last() =~= a + b.drop_last());
        lemma_polls_concat(a, b.drop_last());
    }
}

proof fn lemma_polls_of_steps<G: Geometry>(
    config: DriverConfig,
    output: Seq<char>,
    presents: bool,
    first: DriverState<G::Size, G::Pose>,
    steps: Seq<StepEffect<G::Size, G::Pose, G::Point>>,
)
    requires
        super::steps_chain::<G>(config, output, presents, first, steps),
    ensures
        polls(super::asked_in(steps)) == steps.len(),
    decreases steps.len(),
{
    if steps.len() > 0 {
        let earlier = steps.drop_last();
        assert(super::steps_chain::<G>(config, output, presents, first, earlier)) by {
            assert forall|i: int| 0 <= i < earlier.len() implies #[trigger] step_run::<G>(
                config,
                output,
                presents,
                earlier[i],
            ) by {
                assert(step_run::<G>(config, output, presents, steps[i]));
            }
            assert forall|i: int| 0 <= i < earlier.len() implies #[trigger] super::follows(
                first,
                earlier,
                i,
            ) by {
                assert(super::follows(first, steps, i));
            }
            assert forall|i: int| 0 <= i < earlier.len() - 1 implies super::goes_on(
                #[trigger] earlier[i],
            ) by {
                assert(super::goes_on(steps[i]));
            }
        }
        lemma_polls_of_steps::<G>(config, output, presents, first, earlier);
        let asked = steps.last().asked;
        assert(step_run::<G>(config, output, presents, steps[steps.len() - 1]));
        lemma_polls_concat(super::asked_in(earlier), asked);
        reveal(step_run);
        reveal_with_fuel(polls, 3);
        assert(asked.len() == 1 || asked.len() == 2);
        assert(asked.drop_last().len() == asked.len() - 1);
    }
}

/// A bounded run that succeeds took as many steps as it tells, the last of which met the end
/// of the session; one that fails tells the error of its last step, or that none of all its
/// steps met the end.
pub proof fn law_bounded_run_counts_its_steps<S, P, T>(
    steps: Seq<StepEffect<S, P, T>>,
    budget: usize,
)
    requires
        steps.len() <= budget,
    ensures
        match super::bounded_result(steps, budget) {
            Ok(n) => {
                &&& n == steps.len()
                &&& n > 0
                &&& steps[n - 1].outcome is Ok
                &&& steps[n - 1].outcome->Ok_0.stopping
            },
            Err(e) => {
                ||| steps.len() > 0 && steps.last().outcome == Err::<StepOutcome<T>, ErrorView>(e)
                ||| steps.len() == 0 || (steps.last().outcome is Ok
                    && !steps.last().outcome->Ok_0.stopping)
            },
        },
{
}

/// A step is a step of this driver with this session, and tells what came of it.
pub proof fn law_step_tells_what_came_of_it<
    G: Geometry,
    C: Clock,
    I: IdGen,
    F: FrameSource,
    Q: PointerSink,
    K: KeyboardSink,
    Z: Sleeper,
    X: XrSession<G::Size, G::Pose>,
>(
    driver: &mut PanelDriver<G, C, I, F, Q, K, Z>,
    session: &mut X,
    r: Result<StepOutcome<G::Point>, Error>,
)
    requires
        call_ensures(PanelDriver::<G, C, I, F, Q, K, Z>::step::<X>, (driver, session), r),
    ensures
        r matches Ok(outcome) ==> stepped(
            *old(driver),
            *final(driver),
            *old(session),
            *final(session),
            Ok(outcome),
        ),
        r matches Err(e) ==> stepped(
            *old(driver),
            *final(driver),
            *old(session),
            *final(session),
            Err(e@),
        ),
{
}

/// One click of the pointing hand, pulled and let go in one step, presses and releases the
/// button, and the driver holds nothing afterwards.
pub proof fn law_click_presses_and_releases<
    G: Geometry,
    C: Clock,
    I: IdGen,
    F: FrameSource,
    Q: PointerSink,
    K: KeyboardSink,
    Z: Sleeper,
    X: XrSession<G::Size, G::Pose>,
>(
    driver: &mut PanelDriver<G, C, I, F, Q, K, Z>,
    session: &mut X,
    r: Result<StepOutcome<G::Point>, Error>,
)
    requires
        call_ensures(PanelDriver::<G, C, I, F, Q, K, Z>::step::<X>, (driver, session), r),
        r is Ok,
        final(session).asked().len() > session.asked().len(),
        final(session).asked()[session.asked().len() as int] == SessionCall::<
            G::Size,
            G::Pose,
        >::Polled(
            Ok(
                seq![
                    XrEvent::PointerButton {
                        controller: driver.settings().pointer_controller,
                        state: PressState::Pressed,
                    },
                    XrEvent::PointerButton {
                        controller: driver.settings().pointer_controller,
                        state: PressState::Released,
                    },
                ],
            ),
        ),
    ensures
        ({
            let before = old(driver).gear().pointer.pointer_offered().len() as int;
            let offered = final(driver).gear().pointer.pointer_offered();
            let button = old(driver).settings().click_button;
            &&& offered.len() >= before + 2
            &&& offered[before].event.kind == (PointerEventKind::Button {
                button,
                state: ButtonState::Pressed,
            })
            &&& offered[before + 1].event.kind == (PointerEventKind::Button {
                button,
                state: ButtonState::Released,
            })
            &&& final(driver).snapshot().hold == PointerHold::Up
        }),
{
    let hand = driver.settings().pointer_controller;
    let pull = XrEvent::<G::Pose>::PointerButton { controller: hand, state: PressState::Pressed };
    let loose = XrEvent::<G::Pose>::PointerButton { controller: hand, state: PressState::Released };
    let events = seq![pull, loose];
    let outcome = Ok::<StepOutcome<G::Point>, ErrorView>(r->Ok_0);
    law_clicks_reach_the_pointer_as_they_came(
        *driver,
        *final(driver),
        *session,
        *final(session),
        outcome,
        events,
    );
    law_events_are_applied_in_order(
        *driver,
        *final(driver),
        *session,
        *final(session),
        outcome,
        events,
    );
    lemma_triggers_push(hand, events);
    lemma_triggers_push(hand, events.drop_last());
    assert(events.drop_last().drop_last() =~= Seq::empty());
    assert(triggers_of(hand, Seq::<XrEvent<G::Pose>>::empty()) =~= Seq::empty()) by {
        reveal(Seq::filter);
    }
    let clicks = triggers_of(hand, events);
    assert(clicks =~= events);
    assert(clicks[0] == pull && clicks[1] == loose);
    lemma_applied::<G>(driver.settings(), driver.snapshot(), events);
    reveal_with_fuel(after_events, 3);
}

/// A turn is one step, asks for events once, and waits as long as it is set to exactly where
/// the session goes on.
pub proof fn law_turn_waits_where_the_session_goes_on<
    G: Geometry,
    C: Clock,
    I: IdGen,
    F: FrameSource,
    Q: PointerSink,
    K: KeyboardSink,
    Z: Sleeper,
    X: XrSession<G::Size, G::Pose>,
>(
    driver: &mut PanelDriver<G, C, I, F, Q, K, Z>,
    session: &mut X,
    r: Result<Turn, Error>,
)
    requires
        call_ensures(PanelDriver::<G, C, I, F, Q, K, Z>::turn::<X>, (driver, session), r),
    ensures
        ({
            let slept = old(driver).gear().sleeper.slept();
            let after = final(driver).gear().sleeper.slept();
            &&& polls(final(session).asked()) == polls(old(session).asked()) + 1
            &&& r matches Ok(Turn::Again) ==> after == slept.push(
                old(driver).settings().step_interval_millis,
            )
            &&& r matches Ok(Turn::Stop) ==> after == slept
            &&& r is Err ==> after == slept
        }),
{
    let eff = choose|eff: StepEffect<G::Size, G::Pose, G::Point>|
        {
            &&& #[trigger] ran_by(
                *driver,
                *final(driver),
                *session,
                *final(session),
                seq![eff],
            )
            &&& match r {
                Ok(Turn::Again) => super::goes_on(eff),
                Ok(Turn::Stop) => eff.outcome is Ok && eff.outcome->Ok_0.stopping,
                Err(e) => eff.outcome == Err::<StepOutcome<G::Point>, ErrorView>(e@),
            }
        };
    let steps = seq![eff];
    law_run_waits_between_steps(*driver, *final(driver), *session, *final(session), steps);
    assert(steps.last() == eff);
    let slept = driver.gear().sleeper.slept();
    let after = final(driver).gear().sleeper.slept();
    assert(after.take(slept.len() as int) =~= slept);
    match r {
        Ok(Turn::Again) => {
            assert(after[slept.len() as int] == driver.settings().step_interval_millis);
            assert(after =~= slept.push(driver.settings().step_interval_millis));
        },
        _ => {
            assert(after =~= slept);
        },
    }
}

/// A bounded run ends the session as the last thing, whatever happens. One that succeeds took
/// as many steps as it tells, at most as many as it was allowed, and waited between them.
pub proof fn law_bounded_run_tells_its_steps<
    G: Geometry,
    C: Clock,
    I: IdGen,
    F: FrameSource,
    Q: PointerSink,
    K: KeyboardSink,
    Z: Sleeper,
    X: XrSession<G::Size, G::Pose>,
>(
    driver: &mut PanelDriver<G, C, I, F, Q, K, Z>,
    session: &mut X,
    steps: usize,
    r: Result<usize, Error>,
)
    requires
        call_ensures(
            PanelDriver::<G, C, I, F, Q, K, Z>::run_for_at_most::<X>,
            (driver, session, steps),
            r,
        ),
    ensures
        ({
            let slept = old(driver).gear().sleeper.slept().len();
            let after = final(driver).gear().sleeper.slept().len();
            let asked = final(session).asked();
            &&& asked.len() > old(session).asked().len()
            &&& asked.last() is Ended
            &&& polls(asked) <= polls(old(session).asked()) + steps
            &&& r matches Ok(n) ==> {
                &&& 0 < n <= steps
                &&& polls(asked) == polls(old(session).asked()) + n
                &&& after == slept + n - 1
                &&& asked.last()->Ended_0 is Ok
            }
        }),
{
    let (taken, before_end, ended) = choose|
        taken: Seq<StepEffect<G::Size, G::Pose, G::Point>>,
        before_end: X,
        ended: Result<(), ErrorView>,
    |
        {
            &&& #[trigger] ran_by(*driver, *final(driver), *session, before_end, taken)
            &&& taken.len() <= steps
            &&& (forall|i: int| 0 <= i < taken.len() ==> super::goes_on(#[trigger] taken[i]))
                ==> taken.len() == steps
            &&& final(session).asked() == before_end.asked().push(
                #[trigger] super::end_call(ended),
            )
            &&& super::count_view(r) == super::with_end(
                super::bounded_result(taken, steps),
                ended,
            )
        };
    let asked = final(session).asked();
    assert(asked.drop_last() =~= before_end.asked());
    if taken.len() > 0 {
        law_run_waits_between_steps(*driver, *final(driver), *session, before_end, taken);
    } else {
        lemma_polls_concat(session.asked(), super::asked_in(taken));
    }
    law_bounded_run_counts_its_steps(taken, steps);
}

/// Ending a run ends the session, and the run's own error goes before that of ending.
pub proof fn law_run_is_ended_on_every_path<
    G: Geometry,
    C: Clock,
    I: IdGen,
    F: FrameSource,
    Q: PointerSink,
    K: KeyboardSink,
    Z: Sleeper,
    X: XrSession<G::Size, G::Pose>,
>(looped: Result<(), Error>, session: &mut X, r: Result<(), Error>)
    requires
        call_ensures(PanelDriver::<G, C, I, F, Q, K, Z>::finish::<X>, (looped, session), r),
    ensures
        final(session).asked().len() == old(session).asked().len() + 1,
        final(session).asked().last() is Ended,
        looped is Err ==> r == looped,
        looped is Ok ==> (r is Ok <==> final(session).asked().last()->Ended_0 is Ok),
{
}

} // verus!
