//! What the compositor makes of hands, events and surfaces, told by what comes out.

use vstd::prelude::*;

use super::{
    handoff_attempt, handoff_text, tracking_text, CompositorCore, KeyOrder, MotionOrder,
    PointerOrder,
};
use crate::compositor::buffer::{
    ClientBufferKind, ClientTextureImporter, DmabufHandoff, ImportView, ShmBufferView,
};
use crate::compositor::journal::failure_text;
use crate::compositor::keyboard::{from_xkb, to_xkb};
use crate::compositor::keys::DeliveredKeys;
use crate::compositor::pointer::{
    button_of_code, evdev_button_code, event_time_ms, PointerDelivery,
};
use crate::compositor::window::{first_match, lemma_position_of, no_match, WindowId, WindowView};
use crate::error::{Error, ErrorView};
use crate::id::IdGen;
use crate::input::{KeyEvent, Keycode, PointerButton, PointerEvent};
use crate::laws::{lemma_told, told};
use crate::log::{Level, LogSink};
use crate::panel::cursor::{PixelPoint, PointerHold};
use crate::panel::{Geometry, PanelPose};
use crate::text::int_text;
use crate::time::{Clock, UtcTimestamp};

verus! {

/// Pointing at a pixel of a window sends the pointer there: the motion begins at the window's
/// corner and ends so many columns and rows from it, and the window is the pointer's target
/// from then on.
pub proof fn law_pointer_goes_to_the_pixel<
    H,
    G: Geometry,
    C: Clock,
    L: LogSink,
    I: IdGen,
    M: ClientTextureImporter,
>(
    core: &mut CompositorCore<H, G, C, L, I, M>,
    window: WindowId,
    local: PixelPoint,
    time_ms: u32,
    at: int,
    r: Result<MotionOrder, Error>,
)
    requires
        call_ensures(
            CompositorCore::<H, G, C, L, I, M>::point_at_local,
            (core, &window, local, time_ms),
            r,
        ),
        0 <= at <= core.shown().len(),
        at < core.shown().len() ==> core.shown()[at].id == window@,
        forall|j: int| 0 <= j < at ==> (#[trigger] core.shown()[j]).id != window@,
    ensures
        r is Err <==> at == old(core).shown().len(),
        r is Err ==> final(core).target() == old(core).target(),
        r matches Ok(order) ==> {
            let rect = old(core).shown()[at].rect;
            &&& order.origin is Some
            &&& order.origin->0.x == rect.x
            &&& order.origin->0.y == rect.y
            &&& order.location.x - order.origin->0.x == local.x
            &&& order.location.y - order.origin->0.y == local.y
            &&& order.time_ms == time_ms
            &&& final(core).target() == Some(window@)
        },
{
    lemma_position_of(core.shown(), window@, at);
}

/// Aiming a hand at a window sends the pointer to the pixel under the hand, as long as the
/// hand is before the window's plane or holds; else the pointer leaves every window.
pub proof fn law_pointer_follows_the_hand<
    H,
    G: Geometry,
    C: Clock,
    L: LogSink,
    I: IdGen,
    M: ClientTextureImporter,
>(
    core: &mut CompositorCore<H, G, C, L, I, M>,
    window: WindowId,
    hand: G::Pose,
    hold: PointerHold,
    time_ms: u32,
    at: int,
    r: Result<(MotionOrder, PointerDelivery), Error>,
)
    requires
        call_ensures(
            CompositorCore::<H, G, C, L, I, M>::aim_at,
            (core, &window, hand, hold, time_ms),
            r,
        ),
        0 <= at <= core.shown().len(),
        at < core.shown().len() ==> core.shown()[at].id == window@,
        forall|j: int| 0 <= j < at ==> (#[trigger] core.shown()[j]).id != window@,
    ensures
        r is Err <==> at == old(core).shown().len(),
        r is Err ==> final(core).target() == old(core).target(),
        r matches Ok((order, delivery)) ==> {
            let w = old(core).shown()[at];
            let point = G::projected(w.plane.pose.pose, hand);
            let px = G::pixel(w.plane.size, w.plane.resolution, point);
            let followed = G::covers(w.plane.size, point) || hold == PointerHold::Down;
            &&& order.time_ms == time_ms
            &&& !followed ==> {
                &&& order.origin is None
                &&& delivery is Left
                &&& final(core).target() is None
            }
            &&& followed ==> {
                &&& order.origin is Some
                &&& order.origin->0.x == w.rect.x
                &&& order.origin->0.y == w.rect.y
                &&& order.location.x == w.rect.x + px.x
                &&& order.location.y == w.rect.y + px.y
                &&& delivery is Moved
                &&& delivery->window@ == window@
                &&& delivery->local == px
                &&& final(core).target() == Some(window@)
            }
        },
{
    lemma_position_of(core.shown(), window@, at);
}

/// A click is handed to the seat as it came: the kernel's number of its own button, whether it
/// went down or up, and its time.
pub proof fn law_click_reaches_the_seat<
    H,
    G: Geometry,
    C: Clock,
    L: LogSink,
    I: IdGen,
    M: ClientTextureImporter,
>(
    core: &mut CompositorCore<H, G, C, L, I, M>,
    event: PointerEvent,
    r: Result<PointerOrder, Error>,
    time_ms: u32,
)
    requires
        call_ensures(CompositorCore::<H, G, C, L, I, M>::deliver_pointer, (core, &event), r),
        call_ensures(event_time_ms, (event.at,), time_ms),
        event.kind is Button,
        !core.keys().contains(event.idempotency_key@.text),
    ensures
        r matches Ok(PointerOrder::Button { code, state, time_ms: told }) && {
            &&& event.kind->button is Left ==> code == 272
            &&& event.kind->button is Right ==> code == 273
            &&& event.kind->button is Middle ==> code == 274
            &&& state == event.kind->state
            &&& told == time_ms
        },
        final(core).target() == old(core).target(),
{
}

/// A motion is handed to the seat as a motion over the window that was aimed at last: from
/// its corner to the pixel of the event. Without such a window it fails.
pub proof fn law_motion_reaches_the_window_aimed_at<
    H,
    G: Geometry,
    C: Clock,
    L: LogSink,
    I: IdGen,
    M: ClientTextureImporter,
>(
    core: &mut CompositorCore<H, G, C, L, I, M>,
    event: PointerEvent,
    r: Result<PointerOrder, Error>,
    time_ms: u32,
    at: int,
)
    requires
        call_ensures(CompositorCore::<H, G, C, L, I, M>::deliver_pointer, (core, &event), r),
        call_ensures(event_time_ms, (event.at,), time_ms),
        event.kind is MotionAbsolute,
        !core.keys().contains(event.idempotency_key@.text),
        0 <= at <= core.shown().len(),
        at < core.shown().len() ==> Some(core.shown()[at].id) == core.target(),
        forall|j: int| 0 <= j < at ==> Some((#[trigger] core.shown()[j]).id) != core.target(),
    ensures
        r is Ok <==> at < old(core).shown().len(),
        r matches Ok(told) ==> {
            let rect = old(core).shown()[at].rect;
            &&& told is Motion
            &&& told->window@ == old(core).shown()[at].id
            &&& told->order.origin is Some
            &&& told->order.origin->0.x == rect.x
            &&& told->order.origin->0.y == rect.y
            &&& told->order.location.x - rect.x == event.kind->x_px
            &&& told->order.location.y - rect.y == event.kind->y_px
            &&& told->order.time_ms == time_ms
        },
{
    if let Some(id) = core.target() {
        assert forall|j: int| 0 <= j < at implies (#[trigger] core.shown()[j]).id != id by {
            assert(Some(core.shown()[j].id) != core.target());
        }
        lemma_position_of(core.shown(), id, at);
    }
}

/// A key is handed to the seat as it came: its number in the keymap is eight above the
/// kernel's, and whether it went down or up and its time stay.
pub proof fn law_key_reaches_the_seat<
    H,
    G: Geometry,
    C: Clock,
    L: LogSink,
    I: IdGen,
    M: ClientTextureImporter,
>(core: &mut CompositorCore<H, G, C, L, I, M>, event: KeyEvent, r: KeyOrder, time_ms: u32)
    requires
        call_ensures(CompositorCore::<H, G, C, L, I, M>::deliver_key, (core, &event), r),
        call_ensures(event_time_ms, (event.at,), time_ms),
        !core.keys().contains(event.idempotency_key@.text),
    ensures
        r matches KeyOrder::Press { xkb, state, time_ms: told } && {
            &&& event.keycode.0 <= u32::MAX - 8 ==> xkb == event.keycode.0 + 8
            &&& event.keycode.0 > u32::MAX - 8 ==> xkb == u32::MAX
            &&& state == event.state
            &&& told == time_ms
        },
{
}

/// No event is delivered twice: whatever kinds they are, the second of two events with one
/// key is told to be a duplicate, and changes nothing that is remembered.
pub proof fn law_no_event_is_delivered_twice<
    H,
    G: Geometry,
    C: Clock,
    L: LogSink,
    I: IdGen,
    M: ClientTextureImporter,
>(
    first: &mut CompositorCore<H, G, C, L, I, M>,
    second: &mut CompositorCore<H, G, C, L, I, M>,
    third: &mut CompositorCore<H, G, C, L, I, M>,
    once: PointerEvent,
    again: PointerEvent,
    typed: KeyEvent,
    first_r: Result<PointerOrder, Error>,
    second_r: Result<PointerOrder, Error>,
    third_r: KeyOrder,
)
    requires
        call_ensures(
            CompositorCore::<H, G, C, L, I, M>::deliver_pointer,
            (first, &once),
            first_r,
        ),
        *second == *final(first),
        *third == *final(first),
        again.idempotency_key@.text == once.idempotency_key@.text,
        typed.idempotency_key@.text == once.idempotency_key@.text,
        call_ensures(
            CompositorCore::<H, G, C, L, I, M>::deliver_pointer,
            (second, &again),
            second_r,
        ),
        call_ensures(CompositorCore::<H, G, C, L, I, M>::deliver_key, (third, &typed), third_r),
    ensures
        second_r matches Ok(PointerOrder::Duplicate),
        third_r is Duplicate,
        final(second).keys() == old(second).keys(),
        final(third).keys() == old(third).keys(),
{
    let key = once.idempotency_key@.text;
    let after = final(first).keys();
    if !first.keys().contains(key) {
        assert(after.last() == key);
        assert(after.contains(key));
    }
}

/// The memory of keys: a key is accepted exactly where it is not remembered, is remembered
/// from then on, and is the last to be forgotten. Nothing but the oldest key is ever forgotten,
/// and that only where a thousand and twenty-four are remembered already.
pub proof fn law_key_is_accepted_once(keys: &mut DeliveredKeys, key: &str, r: bool)
    requires
        call_ensures(DeliveredKeys::accept, (keys, key), r),
    ensures
        r <==> !old(keys)@.contains(key@),
        !r ==> final(keys)@ == old(keys)@,
        r ==> {
            &&& final(keys)@.len() > 0
            &&& final(keys)@.last() == key@
            &&& old(keys)@.len() < 1024 ==> final(keys)@.drop_last() == old(keys)@
            &&& old(keys)@.len() == 1024 ==> final(keys)@.drop_last() == old(keys)@.skip(1)
        },
        final(keys)@.contains(key@),
        final(keys)@.len() <= 1024,
{
    let after = final(keys)@;
    if r {
        assert(after.contains(after.last()));
        if keys@.len() == 1024 {
            assert(after.drop_last() =~= keys@.skip(1));
        } else {
            assert(after.drop_last() =~= keys@);
        }
    }
}

/// The buttons have the numbers of the kernel, each its own, and a number leads back to its
/// button.
pub proof fn law_buttons_have_the_numbers_of_the_kernel(
    button: PointerButton,
    code: u32,
    back: Option<PointerButton>,
)
    requires
        call_ensures(evdev_button_code, (button,), code),
        call_ensures(button_of_code, (code,), back),
    ensures
        272 <= code <= 274,
        code == 272 <==> button is Left,
        code == 273 <==> button is Right,
        code == 274 <==> button is Middle,
        back == Some(button),
{
}

/// Keys are counted from eight in the keymap.
pub proof fn law_keymap_counts_from_eight(keycode: Keycode, xkb: u32, back: Keycode)
    requires
        call_ensures(to_xkb, (keycode,), xkb),
        call_ensures(from_xkb, (xkb,), back),
    ensures
        keycode.0 <= u32::MAX - 8 ==> xkb - keycode.0 == 8 && back == keycode,
        keycode.0 > u32::MAX - 8 ==> xkb == u32::MAX,
{
}

/// The time of an event starts over every two to the thirty-second milliseconds: it differs
/// from the time itself by a multiple of that, before the epoch too, and one millisecond later
/// it is one more, or nought.
pub proof fn law_event_time_counts_milliseconds(
    at: UtcTimestamp,
    later: UtcTimestamp,
    r: u32,
    next: u32,
)
    requires
        call_ensures(event_time_ms, (at,), r),
        call_ensures(event_time_ms, (later,), next),
        later.millis() == at.millis() + 1,
    ensures
        (at.millis() - r) % 0x1_0000_0000 == 0,
        next == r + 1 || (r == u32::MAX && next == 0),
{
}

/// A new window bears the identifier that was drawn for it, stands after all others, which
/// stay as they are, and shows nothing yet; without an identifier or a plane there is none,
/// and the place is not used up.
pub proof fn law_new_window_comes_last<
    H,
    G: Geometry,
    C: Clock,
    L: LogSink,
    I: IdGen,
    M: ClientTextureImporter,
>(
    core: &mut CompositorCore<H, G, C, L, I, M>,
    handle: H,
    plane: Result<(G::Size, PanelPose<G::Pose>), Error>,
    world: &str,
)
    requires
        core.registry().has_room(core.window_size()),
        call_ensures(
            CompositorCore::<H, G, C, L, I, M>::new_toplevel,
            (core, handle, plane, world),
            (),
        ),
    ensures
        ({
            let before = old(core).shown();
            let after = final(core).shown();
            let drawn = final(core).drawn();
            let size = old(core).window_size();
            let placed = drawn.last() is Ok && plane is Ok && size.0 > 0 && size.1 > 0;
            &&& drawn.len() == old(core).drawn().len() + 1
            &&& final(core).lines().len() == old(core).lines().len() + 1
            &&& !placed ==> after == before && final(core).registry().placed() == old(
                core,
            ).registry().placed()
            &&& placed ==> {
                &&& after.len() == before.len() + 1
                &&& forall|i: int| 0 <= i < before.len() ==> #[trigger] after[i] == before[i]
                &&& after.last().id == drawn.last()->Ok_0
                &&& after.last().handle == handle
                &&& !after.last().mapped
                &&& after.last().rect.width_px == size.0
                &&& after.last().rect.height_px == size.1
                &&& final(core).registry().placed() == old(core).registry().placed() + 1
            }
        }),
{
}

/// A window that is gone is the one that was meant, the others stay as they are, and the
/// pointer is no longer over it.
pub proof fn law_gone_window_is_forgotten<
    H,
    G: Geometry,
    C: Clock,
    L: LogSink,
    I: IdGen,
    M: ClientTextureImporter,
    F: Fn(&H) -> bool,
>(core: &mut CompositorCore<H, G, C, L, I, M>, is_this: F, at: int)
    requires
        call_ensures(
            CompositorCore::<H, G, C, L, I, M>::toplevel_destroyed::<F>,
            (core, is_this),
            (),
        ),
        0 <= at < core.shown().len(),
        forall|j: int|
            0 <= j < core.shown().len() ==> !call_ensures(
                is_this,
                (&(#[trigger] core.shown()[j]).handle,),
                j != at,
            ),
    ensures
        final(core).shown() == old(core).shown().remove(at),
        final(core).target() == (if old(core).target() == Some(old(core).shown()[at].id) {
            None
        } else {
            old(core).target()
        }),
{
    lemma_one_is_meant(core.shown(), is_this, at);
}

/// A window that submits something shows something from then on, and no other window changes;
/// it is told whether it showed nothing before.
pub proof fn law_commit_maps_the_window<
    H,
    G: Geometry,
    C: Clock,
    L: LogSink,
    I: IdGen,
    M: ClientTextureImporter,
    F: Fn(&H) -> bool,
>(core: &mut CompositorCore<H, G, C, L, I, M>, is_this: F, at: int, r: bool)
    requires
        call_ensures(CompositorCore::<H, G, C, L, I, M>::note_commit::<F>, (core, is_this), r),
        0 <= at < core.shown().len(),
        forall|j: int|
            0 <= j < core.shown().len() ==> !call_ensures(
                is_this,
                (&(#[trigger] core.shown()[j]).handle,),
                j != at,
            ),
    ensures
        ({
            let before = old(core).shown();
            let after = final(core).shown();
            &&& after.len() == before.len()
            &&& after[at].mapped
            &&& after[at].id == before[at].id
            &&& after[at].handle == before[at].handle
            &&& after[at].rect == before[at].rect
            &&& after[at].plane == before[at].plane
            &&& r <==> !before[at].mapped
            &&& forall|j: int|
                0 <= j < before.len() && j != at ==> #[trigger] after[j] == before[j]
        }),
{
    lemma_one_is_meant(core.shown(), is_this, at);
}

proof fn lemma_one_is_meant<H, S, P, F: Fn(&H) -> bool>(
    windows: Seq<WindowView<H, S, P>>,
    is_this: F,
    at: int,
)
    requires
        0 <= at < windows.len(),
        forall|j: int|
            0 <= j < windows.len() ==> !call_ensures(
                is_this,
                (&(#[trigger] windows[j]).handle,),
                j != at,
            ),
    ensures
        !no_match(windows, is_this),
        forall|k: int| #[trigger] first_match(windows, is_this, k) ==> k == at,
{
    assert(!call_ensures(is_this, (&windows[at].handle,), false));
    assert forall|k: int| #[trigger] first_match(windows, is_this, k) implies k == at by {
        if k != at {
            assert(!call_ensures(is_this, (&windows[k].handle,), true));
        }
    }
}

/// A window's buffer in shared memory reaches the importer once, as the window's own, with its
/// extent, its stride, its offset and its bytes as they came, and what became of it is told.
pub proof fn law_shared_buffer_reaches_the_importer<
    H,
    G: Geometry,
    C: Clock,
    L: LogSink,
    I: IdGen,
    M: ClientTextureImporter,
    F: Fn(&H) -> bool,
>(
    core: &mut CompositorCore<H, G, C, L, I, M>,
    is_this: F,
    view: ShmBufferView<'_>,
    at: int,
)
    requires
        call_ensures(
            CompositorCore::<H, G, C, L, I, M>::hand_off_shm::<F>,
            (core, is_this, view),
            (),
        ),
        0 <= at < core.shown().len(),
        forall|j: int|
            0 <= j < core.shown().len() ==> !call_ensures(
                is_this,
                (&(#[trigger] core.shown()[j]).handle,),
                j != at,
            ),
    ensures
        ({
            let before = old(core).imports();
            let after = final(core).imports();
            let id = old(core).shown()[at].id;
            let trace = old(core).trace();
            &&& after.len() == before.len() + 1
            &&& after.drop_last() == before
            &&& final(core).shown() == old(core).shown()
            &&& match after.last() {
                ImportView::Shm {
                    window,
                    wl_shm_format,
                    width_px,
                    height_px,
                    stride_bytes,
                    offset_bytes,
                    bytes,
                    outcome,
                } => {
                    &&& window == id
                    &&& wl_shm_format == view.wl_shm_format
                    &&& width_px == view.width_px
                    &&& height_px == view.height_px
                    &&& stride_bytes == view.stride_bytes
                    &&& offset_bytes == view.offset_bytes
                    &&& bytes == view.bytes@
                    &&& outcome is Ok ==> told(
                        old(core).clock(),
                        old(core).lines(),
                        final(core).lines(),
                        "info"@,
                        trace,
                        "handed a "@ + "shm"@ + " buffer of window "@ + id.text
                            + " to the importer"@,
                    )
                    &&& outcome matches Err(e) ==> told(
                        old(core).clock(),
                        old(core).lines(),
                        final(core).lines(),
                        "error"@,
                        trace,
                        "handing a "@ + "shm"@ + " buffer of window "@ + id.text
                            + " to the importer"@ + ": "@ + e.message,
                    )
                },
                _ => false,
            }
        }),
{
    let windows = core.shown();
    lemma_one_is_meant(windows, is_this, at);
    let id = windows[at].id;
    let outcome = choose|outcome: Result<(), ErrorView>|
        first_match(windows, is_this, at) && #[trigger] core.handed_shm(
            final(core),
            view,
            id,
            outcome,
        );
    assert(final(core).imports().drop_last() =~= core.imports());
    match outcome {
        Ok(_) => {
            lemma_told(
                core.clock(),
                core.lines(),
                final(core).lines(),
                Level::Info,
                core.trace(),
                handoff_text(ClientBufferKind::Shm, id.text),
            );
        },
        Err(e) => {
            lemma_told(
                core.clock(),
                core.lines(),
                final(core).lines(),
                Level::Error,
                core.trace(),
                failure_text(handoff_attempt(ClientBufferKind::Shm, id.text), e.message),
            );
        },
    }
}

/// A window's buffer of the graphics device reaches the importer once, as the window's own and
/// described as it came, and what became of it is told.
pub proof fn law_graphics_buffer_reaches_the_importer<
    H,
    G: Geometry,
    C: Clock,
    L: LogSink,
    I: IdGen,
    M: ClientTextureImporter,
    F: Fn(&H) -> bool,
>(
    core: &mut CompositorCore<H, G, C, L, I, M>,
    is_this: F,
    handoff: DmabufHandoff,
    dmabuf: M::Dmabuf,
    at: int,
)
    requires
        call_ensures(
            CompositorCore::<H, G, C, L, I, M>::hand_off_dmabuf::<F>,
            (core, is_this, handoff, &dmabuf),
            (),
        ),
        0 <= at < core.shown().len(),
        forall|j: int|
            0 <= j < core.shown().len() ==> !call_ensures(
                is_this,
                (&(#[trigger] core.shown()[j]).handle,),
                j != at,
            ),
    ensures
        ({
            let before = old(core).imports();
            let after = final(core).imports();
            let id = old(core).shown()[at].id;
            let trace = old(core).trace();
            &&& after.len() == before.len() + 1
            &&& after.drop_last() == before
            &&& final(core).shown() == old(core).shown()
            &&& match after.last() {
                ImportView::Dmabuf { window, handoff: described, outcome } => {
                    &&& window == Some(id)
                    &&& described == handoff
                    &&& outcome is Ok ==> told(
                        old(core).clock(),
                        old(core).lines(),
                        final(core).lines(),
                        "info"@,
                        trace,
                        "handed a "@ + "dmabuf"@ + " buffer of window "@ + id.text
                            + " to the importer"@,
                    )
                    &&& outcome matches Err(e) ==> told(
                        old(core).clock(),
                        old(core).lines(),
                        final(core).lines(),
                        "error"@,
                        trace,
                        "handing a "@ + "dmabuf"@ + " buffer of window "@ + id.text
                            + " to the importer"@ + ": "@ + e.message,
                    )
                },
                _ => false,
            }
        }),
{
    let windows = core.shown();
    lemma_one_is_meant(windows, is_this, at);
    let id = windows[at].id;
    let outcome = choose|outcome: Result<(), ErrorView>|
        first_match(windows, is_this, at) && #[trigger] core.handed_dmabuf(
            final(core),
            handoff,
            id,
            outcome,
        );
    assert(final(core).imports().drop_last() =~= core.imports());
    match outcome {
        Ok(_) => {
            lemma_told(
                core.clock(),
                core.lines(),
                final(core).lines(),
                Level::Info,
                core.trace(),
                handoff_text(ClientBufferKind::Dmabuf, id.text),
            );
        },
        Err(e) => {
            lemma_told(
                core.clock(),
                core.lines(),
                final(core).lines(),
                Level::Error,
                core.trace(),
                failure_text(handoff_attempt(ClientBufferKind::Dmabuf, id.text), e.message),
            );
        },
    }
}

/// A client's question whether a buffer will be taken is put to the importer, as a buffer of
/// no window, and the importer's answer is the client's.
pub proof fn law_client_is_answered_by_the_importer<
    H,
    G: Geometry,
    C: Clock,
    L: LogSink,
    I: IdGen,
    M: ClientTextureImporter,
>(
    core: &mut CompositorCore<H, G, C, L, I, M>,
    handoff: DmabufHandoff,
    dmabuf: M::Dmabuf,
    r: bool,
)
    requires
        call_ensures(
            CompositorCore::<H, G, C, L, I, M>::dmabuf_imported,
            (core, handoff, &dmabuf),
            r,
        ),
    ensures
        ({
            let before = old(core).imports();
            let after = final(core).imports();
            &&& after.len() == before.len() + 1
            &&& after.drop_last() == before
            &&& final(core).shown() == old(core).shown()
            &&& final(core).lines().len() == old(core).lines().len() + 1
            &&& match after.last() {
                ImportView::Dmabuf { window, handoff: described, outcome } => {
                    &&& window is None
                    &&& described == handoff
                    &&& r <==> outcome is Ok
                },
                _ => false,
            }
        }),
{
    assert(final(core).imports().drop_last() =~= core.imports());
}

/// Where the keyboard went is told by the name of the window, or as nowhere; nothing else
/// changes.
pub proof fn law_focus_is_told_by_the_window<
    H,
    G: Geometry,
    C: Clock,
    L: LogSink,
    I: IdGen,
    M: ClientTextureImporter,
    F: Fn(&H) -> bool,
>(
    core: &mut CompositorCore<H, G, C, L, I, M>,
    focused: bool,
    is_this: F,
    at: int,
)
    requires
        call_ensures(
            CompositorCore::<H, G, C, L, I, M>::focus_changed::<F>,
            (core, focused, is_this),
            (),
        ),
        0 <= at < core.shown().len(),
        forall|j: int|
            0 <= j < core.shown().len() ==> !call_ensures(
                is_this,
                (&(#[trigger] core.shown()[j]).handle,),
                j != at,
            ),
    ensures
        final(core).shown() == old(core).shown(),
        final(core).target() == old(core).target(),
        told(
            old(core).clock(),
            old(core).lines(),
            final(core).lines(),
            "info"@,
            old(core).trace(),
            "keyboard focus is now on "@ + (if focused {
                old(core).shown()[at].id.text
            } else {
                "none"@
            }),
        ),
{
    let windows = core.shown();
    lemma_one_is_meant(windows, is_this, at);
    lemma_told(
        core.clock(),
        core.lines(),
        final(core).lines(),
        Level::Info,
        core.trace(),
        "keyboard focus is now on "@ + (if focused {
            windows[at].id.text
        } else {
            "none"@
        }),
    );
}

/// A buffer that cannot be taken is told of as its window's: one of a kind that is not taken
/// with a warning, one that cannot be read with an error. No buffer is handed over.
pub proof fn law_bad_buffer_is_told_by_its_window<
    H,
    G: Geometry,
    C: Clock,
    L: LogSink,
    I: IdGen,
    M: ClientTextureImporter,
    F: Fn(&H) -> bool,
>(
    core: &mut CompositorCore<H, G, C, L, I, M>,
    other: &mut CompositorCore<H, G, C, L, I, M>,
    is_this: F,
    reason: &str,
    at: int,
)
    requires
        *core == *other,
        call_ensures(
            CompositorCore::<H, G, C, L, I, M>::note_unmanaged_buffer::<F>,
            (core, is_this),
            (),
        ),
        call_ensures(
            CompositorCore::<H, G, C, L, I, M>::note_unreadable_buffer::<F>,
            (other, is_this, reason),
            (),
        ),
        0 <= at < core.shown().len(),
        forall|j: int|
            0 <= j < core.shown().len() ==> !call_ensures(
                is_this,
                (&(#[trigger] core.shown()[j]).handle,),
                j != at,
            ),
    ensures
        final(core).imports() == old(core).imports(),
        final(other).imports() == old(core).imports(),
        told(
            old(core).clock(),
            old(core).lines(),
            final(core).lines(),
            "warn"@,
            old(core).trace(),
            "window "@ + old(core).shown()[at].id.text
                + " committed a buffer of a kind schorl does not accept yet"@,
        ),
        told(
            old(core).clock(),
            old(core).lines(),
            final(other).lines(),
            "error"@,
            old(core).trace(),
            "handing a "@ + "shm"@ + " buffer of window "@ + old(core).shown()[at].id.text
                + " to the importer"@ + ": "@ + "the client's shm pool could not be read"@,
        ),
{
    let windows = core.shown();
    lemma_one_is_meant(windows, is_this, at);
    let id = windows[at].id;
    lemma_told(
        core.clock(),
        core.lines(),
        final(core).lines(),
        Level::Warn,
        core.trace(),
        "window "@ + id.text + " committed a buffer of a kind schorl does not accept yet"@,
    );
    lemma_told(
        core.clock(),
        core.lines(),
        final(other).lines(),
        Level::Error,
        core.trace(),
        failure_text(
            handoff_attempt(ClientBufferKind::Shm, id.text),
            "the client's shm pool could not be read"@,
        ),
    );
}

/// A surface that is no window's hands nothing over, and nothing is told of it.
pub proof fn law_stray_surface_hands_nothing_over<
    H,
    G: Geometry,
    C: Clock,
    L: LogSink,
    I: IdGen,
    M: ClientTextureImporter,
    F: Fn(&H) -> bool,
>(
    shm: &mut CompositorCore<H, G, C, L, I, M>,
    graphics: &mut CompositorCore<H, G, C, L, I, M>,
    is_this: F,
    view: ShmBufferView<'_>,
    handoff: DmabufHandoff,
    dmabuf: M::Dmabuf,
)
    requires
        call_ensures(
            CompositorCore::<H, G, C, L, I, M>::hand_off_shm::<F>,
            (shm, is_this, view),
            (),
        ),
        call_ensures(
            CompositorCore::<H, G, C, L, I, M>::hand_off_dmabuf::<F>,
            (graphics, is_this, handoff, &dmabuf),
            (),
        ),
        forall|j: int|
            0 <= j < shm.shown().len() ==> !call_ensures(
                is_this,
                (&(#[trigger] shm.shown()[j]).handle,),
                true,
            ),
        graphics.shown() == shm.shown(),
    ensures
        final(shm).imports() == old(shm).imports(),
        final(shm).lines() == old(shm).lines(),
        final(graphics).imports() == old(graphics).imports(),
        final(graphics).lines() == old(graphics).lines(),
{
    let windows = shm.shown();
    assert forall|k: int| !#[trigger] first_match(windows, is_this, k) by {
        if first_match(windows, is_this, k) {
            assert(!call_ensures(is_this, (&windows[k].handle,), true));
        }
    }
}

/// A window that came is told by its name, its own corner and its place in the world; one that
/// could not be placed, with the reason.
pub proof fn law_new_window_is_told<
    H,
    G: Geometry,
    C: Clock,
    L: LogSink,
    I: IdGen,
    M: ClientTextureImporter,
>(
    core: &mut CompositorCore<H, G, C, L, I, M>,
    handle: H,
    plane: Result<(G::Size, PanelPose<G::Pose>), Error>,
    world: &str,
)
    requires
        core.registry().has_room(core.window_size()),
        call_ensures(
            CompositorCore::<H, G, C, L, I, M>::new_toplevel,
            (core, handle, plane, world),
            (),
        ),
    ensures
        ({
            let size = old(core).window_size();
            let id = final(core).drawn().last();
            let w = final(core).shown().last();
            &&& id matches Err(e) ==> told(
                old(core).clock(),
                old(core).lines(),
                final(core).lines(),
                "error"@,
                old(core).trace(),
                "issuing a window id"@ + ": "@ + e.message,
            )
            &&& id is Ok && plane is Err ==> told(
                old(core).clock(),
                old(core).lines(),
                final(core).lines(),
                "error"@,
                old(core).trace(),
                "placing a new toplevel"@ + ": "@ + plane->Err_0@.message,
            )
            &&& id is Ok && plane is Ok && size.0 > 0 && size.1 > 0 ==> told(
                old(core).clock(),
                old(core).lines(),
                final(core).lines(),
                "info"@,
                old(core).trace(),
                "tracking toplevel "@ + id->Ok_0.text + " at atlas ("@ + int_text(w.rect.x as int)
                    + ","@ + int_text(w.rect.y as int) + ") and world ("@ + world@ + ")"@,
            )
        }),
{
    let size = core.window_size();
    let w = final(core).shown().last();
    match final(core).drawn().last() {
        Err(e) => {
            lemma_told(
                core.clock(),
                core.lines(),
                final(core).lines(),
                Level::Error,
                core.trace(),
                failure_text("issuing a window id"@, e.message),
            );
        },
        Ok(id) => {
            if plane is Err {
                lemma_told(
                    core.clock(),
                    core.lines(),
                    final(core).lines(),
                    Level::Error,
                    core.trace(),
                    failure_text("placing a new toplevel"@, plane->Err_0@.message),
                );
            } else if size.0 > 0 && size.1 > 0 {
                lemma_told(
                    core.clock(),
                    core.lines(),
                    final(core).lines(),
                    Level::Info,
                    core.trace(),
                    tracking_text(id.text, w.rect, world@),
                );
            }
        },
    }
}

/// A window that shows something for the first time and a window that is gone are told by their
/// names; that a window shows something again is not told.
pub proof fn law_windows_are_told_when_they_come_and_go<
    H,
    G: Geometry,
    C: Clock,
    L: LogSink,
    I: IdGen,
    M: ClientTextureImporter,
    F: Fn(&H) -> bool,
>(
    core: &mut CompositorCore<H, G, C, L, I, M>,
    other: &mut CompositorCore<H, G, C, L, I, M>,
    is_this: F,
    at: int,
    first: bool,
)
    requires
        *core == *other,
        call_ensures(CompositorCore::<H, G, C, L, I, M>::note_commit::<F>, (core, is_this), first),
        call_ensures(
            CompositorCore::<H, G, C, L, I, M>::toplevel_destroyed::<F>,
            (other, is_this),
            (),
        ),
        0 <= at < core.shown().len(),
        forall|j: int|
            0 <= j < core.shown().len() ==> !call_ensures(
                is_this,
                (&(#[trigger] core.shown()[j]).handle,),
                j != at,
            ),
    ensures
        old(core).shown()[at].mapped ==> final(core).lines() == old(core).lines(),
        !old(core).shown()[at].mapped ==> told(
            old(core).clock(),
            old(core).lines(),
            final(core).lines(),
            "info"@,
            old(core).trace(),
            "window "@ + old(core).shown()[at].id.text + " is now mapped"@,
        ),
        told(
            old(core).clock(),
            old(core).lines(),
            final(other).lines(),
            "info"@,
            old(core).trace(),
            "window "@ + old(core).shown()[at].id.text + " is gone"@,
        ),
{
    let windows = core.shown();
    lemma_one_is_meant(windows, is_this, at);
    let name = windows[at].id.text;
    if !windows[at].mapped {
        lemma_told(
            core.clock(),
            core.lines(),
            final(core).lines(),
            Level::Info,
            core.trace(),
            "window "@ + name + " is now mapped"@,
        );
    }
    lemma_told(
        core.clock(),
        core.lines(),
        final(other).lines(),
        Level::Info,
        core.trace(),
        "window "@ + name + " is gone"@,
    );
}

} // verus!
