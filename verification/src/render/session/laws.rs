//! When a session opens, runs, waits, shows and closes, told by what the runtime says.

use vstd::prelude::*;

use super::{
    all_view_steps, check_image_index, check_view_count, choose_color_format,
    choose_reference_space, count_advertised, exit_request_outcome, forced_end_outcome,
    frame_steps, jitter_millionths, plan_frame, trues_before, view_steps, CloseStep, FrameStep,
    ReadyStep, ReadyWait, ReferenceSpace, RuntimeState, SessionOpening, SessionTracker,
    StateOrder, XrVulkanFacts,
};
use crate::error::Error;
use crate::render::facts::RenderFacts;
use crate::render::vulkan::VulkanDeviceFacts;
use crate::retry::RetryPolicy;
use crate::scan::stands_at;
use crate::testing::texts;
use crate::xr::SessionState;

verus! {

/// The colour format that is taken is offered, is one of four, and none of those before it in
/// the order of preference is offered; there is none exactly where none of the four is.
pub proof fn law_best_offered_format_is_taken(formats: &[u32], r: Result<u32, Error>)
    requires
        call_ensures(choose_color_format, (formats,), r),
    ensures
        r matches Ok(f) ==> formats@.contains(f) && (f == 50 || f == 43 || f == 44 || f == 37),
        r is Err <==> !formats@.contains(50) && !formats@.contains(43) && !formats@.contains(44)
            && !formats@.contains(37),
        formats@.contains(50) ==> r == Ok::<u32, Error>(50),
        formats@.contains(43) && !formats@.contains(50) ==> r == Ok::<u32, Error>(43),
        formats@.contains(44) && !formats@.contains(50) && !formats@.contains(43) ==> r == Ok::<
            u32,
            Error,
        >(44),
{
}

/// The room is preferred to the place where the session began; one of them is needed.
pub proof fn law_room_is_preferred(
    has_stage: bool,
    has_local: bool,
    r: Result<ReferenceSpace, Error>,
)
    requires
        call_ensures(choose_reference_space, (has_stage, has_local), r),
    ensures
        has_stage ==> r == Ok::<ReferenceSpace, Error>(ReferenceSpace::Stage),
        !has_stage && has_local ==> r == Ok::<ReferenceSpace, Error>(ReferenceSpace::Local),
        r is Err <==> !has_stage && !has_local,
{
}

proof fn lemma_trues_same(a: Seq<char>, b: Seq<char>, end: int)
    requires
        a.is_prefix_of(b),
        end <= a.len() - 3,
    ensures
        trues_before(b, end) == trues_before(a, end),
    decreases end,
{
    reveal_strlit("true");
    if end > 0 {
        lemma_trues_same(a, b, end - 1);
        let at = end - 1;
        if at + 4 <= a.len() {
            assert(b.subrange(at, at + 4) =~= a.subrange(at, at + 4)) by {
                assert forall|k: int| at <= k < at + 4 implies b[k] == a[k] by {
                    assert(b.subrange(0, a.len() as int)[k] == b[k]);
                }
            }
        }
    }
}

proof fn lemma_no_true_at_the_end(s: Seq<char>, from: int)
    requires
        0 <= from,
        s.len() - 3 <= from <= s.len(),
    ensures
        trues_before(s, s.len() as int) == trues_before(s, from),
    decreases s.len() - from,
{
    reveal_strlit("true");
    if from < s.len() {
        lemma_no_true_at_the_end(s, from + 1);
        assert(!stands_at(s, "true"@, from));
    }
}

/// The extensions of a runtime are counted by the words that say `true`: none in an empty text,
/// and one more for every such word at the end.
pub proof fn law_extensions_are_counted_by_their_words(
    written: &str,
    more: &str,
    r: usize,
    next: usize,
)
    requires
        call_ensures(count_advertised, (written,), r),
        call_ensures(count_advertised, (more,), next),
        more@ == written@ + "true"@,
    ensures
        written@.len() == 0 ==> r == 0,
        next == r + 1,
{
    reveal_strlit("true");
    let a = written@;
    let b = more@;
    let n = a.len() as int;
    assert(b.subrange(0, n) =~= a);
    assert(stands_at(b, "true"@, n)) by {
        assert(b.subrange(n, n + 4) =~= "true"@);
    }
    lemma_no_true_at_the_end(b, n + 1);
    let m = if n >= 3 {
        n - 3
    } else {
        0
    };
    lemma_trues_same(a, b, n - 3);
    lemma_no_true_at_the_end(a, m);
    assert(trues_before(b, n) == trues_before(b, m)) by {
        if n >= 1 {
            assert(!stands_at(b, "true"@, n - 1)) by {
                assert(b.subrange(n - 1, n + 3)[1] == 't');
            }
        }
        if n >= 2 {
            assert(!stands_at(b, "true"@, n - 2)) by {
                assert(b.subrange(n - 2, n + 2)[2] == 't');
            }
        }
        if n >= 3 {
            assert(!stands_at(b, "true"@, n - 3)) by {
                assert(b.subrange(n - 3, n + 1)[3] == 't');
            }
        }
        reveal_with_fuel(trues_before, 4);
    }
    if n < 3 {
        assert(trues_before(a, 0) == 0 && trues_before(b, 0) == 0);
    }
}

/// A session that opens is known by what the runtime said, step by step: its name and version,
/// the blendings by name, the views, the extent and the format that were taken, the space, and
/// the images of each swapchain. It opens exactly where the runtime draws through this
/// interface, blends opaquely, has a view, offers one of the four formats and knows a space.
pub proof fn law_opening_keeps_what_the_runtime_said(
    written: &str,
    enable2: bool,
    name: &str,
    version: &str,
    blends: &[i32],
    blend_names: Vec<String>,
    views: usize,
    extent: (u32, u32),
    formats: &[u32],
    has_stage: bool,
    has_local: bool,
    vulkan: VulkanDeviceFacts,
    extensions: usize,
    begun: Result<SessionOpening, Error>,
    named: SessionOpening,
    blended: Result<SessionOpening, Error>,
    viewed: Result<SessionOpening, Error>,
    formatted: Result<SessionOpening, Error>,
    spaced: Result<SessionOpening, Error>,
    format: Result<u32, Error>,
    r: (XrVulkanFacts, RenderFacts),
)
    requires
        call_ensures(count_advertised, (written,), extensions),
        call_ensures(choose_color_format, (formats,), format),
        call_ensures(SessionOpening::begin, (written, enable2), begun),
        begun is Ok ==> call_ensures(SessionOpening::with_runtime, (begun->Ok_0, name, version), named),
        call_ensures(SessionOpening::with_blend_modes, (named, blends, blend_names), blended),
        blended is Ok ==> call_ensures(
            SessionOpening::with_views,
            (blended->Ok_0, views, extent),
            viewed,
        ),
        viewed is Ok ==> call_ensures(
            SessionOpening::with_formats,
            (viewed->Ok_0, formats),
            formatted,
        ),
        formatted is Ok ==> call_ensures(
            SessionOpening::with_spaces,
            (formatted->Ok_0, has_stage, has_local),
            spaced,
        ),
        spaced is Ok ==> call_ensures(SessionOpening::conclude, (spaced->Ok_0, vulkan), r),
    ensures
        begun is Ok <==> enable2,
        blended is Ok <==> blends@.contains(1),
        blended is Ok ==> (viewed is Ok <==> views > 0),
        blended is Ok && viewed is Ok ==> (formatted is Ok <==> format is Ok),
        blended is Ok && viewed is Ok && formatted is Ok ==> (spaced is Ok <==> has_stage
            || has_local),
        begun is Ok && blended is Ok && viewed is Ok && formatted is Ok && spaced is Ok ==> {
            let (facts, ledger) = r;
            &&& facts.runtime_name@ == name@
            &&& facts.runtime_version@ == version@
            &&& facts.advertised_extension_count == extensions
            &&& facts.vulkan_enable2_advertised
            &&& facts.view_count == views
            &&& texts(facts.offered_blend_modes@) == texts(blend_names@)
            &&& facts.chosen_blend_mode@ == "OPAQUE"@
            &&& facts.advertised_swapchain_format_count == formats@.len() as usize
            &&& facts.chosen_swapchain_format == format->Ok_0
            &&& has_stage ==> facts.reference_space@ == "stage"@
            &&& !has_stage ==> facts.reference_space@ == "local"@
            &&& facts.observed_states@.len() == 0
            &&& facts.vulkan == vulkan
            &&& ledger.swapchain_extent == Some(extent)
            &&& ledger.swapchain_format == Some(format->Ok_0)
            &&& ledger.swapchains_created == 0
            &&& ledger.frames_submitted == 0
        },
{
}

/// A swapchain that is noted is counted with its images, after those before it.
pub proof fn law_swapchains_are_counted_with_their_images(
    opening: &mut SessionOpening,
    image_count: u32,
    vulkan: VulkanDeviceFacts,
    r: (XrVulkanFacts, RenderFacts),
)
    requires
        call_ensures(SessionOpening::note_swapchain, (opening, image_count), ()),
        call_ensures(SessionOpening::conclude, (*final(opening), vulkan), r),
    ensures
        r.1.swapchain_image_counts@ == old(opening)@.image_counts.push(image_count),
        r.1.swapchains_created == old(opening)@.image_counts.len() + 1,
        r.1.swapchain_extent == Some(old(opening)@.extent),
        r.1.swapchain_format == Some(old(opening)@.format),
{
}

/// A session begins when the runtime is ready, ends when it stops, and is left when the runtime
/// goes or is about to be lost; no other state asks for anything. Every state is written down.
pub proof fn law_states_ask_for_what_they_mean(
    tracker: &mut SessionTracker,
    state: RuntimeState,
    written: &str,
    r: StateOrder,
)
    requires
        call_ensures(SessionTracker::observe, (tracker, state, written), r),
    ensures
        r is Begin <==> state is Ready,
        r is End <==> state is Stopping,
        r is Exit <==> state is Exiting || state is LossPending,
        r is Nothing <==> state is Other,
        final(tracker).states() == old(tracker).states().push(written@),
        final(tracker).runs() == old(tracker).runs(),
{
}

/// A session runs from its beginning to its end, is told to run exactly then, unless it is
/// being left, and shows frames exactly then.
pub proof fn law_session_runs_from_beginning_to_end(
    first: &mut SessionTracker,
    second: &mut SessionTracker,
    exiting: bool,
    running: bool,
    told: SessionState,
    shows: Result<(), Error>,
    over: SessionState,
    shows_not: Result<(), Error>,
)
    requires
        call_ensures(SessionTracker::began, (first,), ()),
        *second == *final(first),
        call_ensures(SessionTracker::ended, (second,), ()),
        call_ensures(SessionTracker::is_running, (&*final(first),), running),
        call_ensures(SessionTracker::session_state, (&*final(first), exiting), told),
        call_ensures(SessionTracker::check_running, (&*final(first),), shows),
        call_ensures(SessionTracker::session_state, (&*final(second), exiting), over),
        call_ensures(SessionTracker::check_running, (&*final(second),), shows_not),
    ensures
        running,
        shows is Ok,
        shows_not is Err,
        exiting ==> told is Stopping && over is Stopping,
        !exiting ==> told is Running && over is Idle,
{
}

/// A session is closed once: the first time a running one is asked to leave and another one is
/// given back, and every later time there is nothing to do.
pub proof fn law_session_is_closed_once(
    first: &mut SessionTracker,
    second: &mut SessionTracker,
    r: CloseStep,
    again: CloseStep,
)
    requires
        !first.was_closed(),
        call_ensures(SessionTracker::begin_close, (first,), r),
        *second == *final(first),
        call_ensures(SessionTracker::begin_close, (second,), again),
    ensures
        r is RequestExit <==> old(first).runs(),
        r is Release <==> !old(first).runs(),
        again is Nothing,
{
}

/// While it closes, a running session is asked for events sixty-four times at most, and no more
/// once it leaves or has ended.
pub proof fn law_closing_comes_to_an_end(
    tracker: SessionTracker,
    rounds_done: u32,
    exiting: bool,
    r: bool,
)
    requires
        call_ensures(SessionTracker::close_pumps_on, (&tracker, rounds_done, exiting), r),
    ensures
        r <==> rounds_done < 64 && !exiting && tracker.runs(),
{
}

/// That a session does not run is no failure of asking it to leave, and that it does not stop
/// is none of ending it; every other code is.
pub proof fn law_one_code_of_each_is_no_failure(
    raw: i32,
    exit: Result<(), Error>,
    end: Result<(), Error>,
)
    requires
        call_ensures(exit_request_outcome, (raw,), exit),
        call_ensures(forced_end_outcome, (raw,), end),
    ensures
        exit is Ok <==> raw == -16,
        end is Ok <==> raw == -29,
{
}

/// The wait for a session: one that leaves is given up, one that runs is there; else it is
/// waited for once more, up to the ceiling of the policy for the waits so far, as long as the
/// policy has retries left.
pub proof fn law_session_is_waited_for_as_often_as_allowed(
    wait: &mut ReadyWait,
    exiting: bool,
    running: bool,
    r: ReadyStep,
    ceiling: u64,
)
    requires
        call_ensures(ReadyWait::after_events, (wait, exiting, running), r),
        call_ensures(
            RetryPolicy::delay_ceiling_millis,
            (wait.rule(), wait.waits() as u32),
            ceiling,
        ),
    ensures
        r is Running <==> running && !exiting,
        r is GivenUp <==> exiting || (!running && old(wait).waits() >= old(wait).rule().retries()),
        r matches ReadyStep::WaitUpTo { ceiling_millis } ==> {
            &&& ceiling_millis == ceiling
            &&& final(wait).waits() == old(wait).waits() + 1
        },
        !(r is WaitUpTo) ==> final(wait).waits() == old(wait).waits(),
        final(wait).rule() == old(wait).rule(),
{
}

/// How many steps come before those of a view.
spec fn before_view(view: int, capture: bool) -> int {
    4 * view + if capture && view > 0 {
        1int
    } else {
        0int
    }
}

proof fn lemma_view_steps(views: int, capture: bool, view: int)
    requires
        0 <= view < views,
    ensures
        all_view_steps(views, capture).len() == before_view(views, capture),
        ({
            let at = before_view(view, capture);
            let end = before_view(view + 1, capture) - 1;
            let steps = all_view_steps(views, capture);
            &&& 0 <= at && end < steps.len()
            &&& steps[at] == (FrameStep::Acquire { view: view as usize })
            &&& steps[at + 1] == (FrameStep::WaitImage { view: view as usize })
            &&& steps[at + 2] == (FrameStep::Draw { view: view as usize })
            &&& capture && view == 0 ==> steps[at + 3] == (FrameStep::Capture {
                view: view as usize,
            })
            &&& steps[end] == (FrameStep::Release { view: view as usize })
        }),
    decreases views,
{
    let earlier = all_view_steps(views - 1, capture);
    let last = view_steps(views - 1, capture);
    if views > 1 {
        lemma_view_steps(
            views - 1,
            capture,
            if view < views - 1 {
                view
            } else {
                0
            },
        );
    }
    assert(earlier.len() == before_view(views - 1, capture));
    let steps = all_view_steps(views, capture);
    assert(steps == earlier + last);
    if view == views - 1 {
        let at = before_view(view, capture);
        assert(steps[at] == last[0] && steps[at + 1] == last[1] && steps[at + 2] == last[2]);
        assert(steps[at + 3] == last[3]);
        if capture && view == 0 {
            assert(steps[at + 4] == last[4]);
        }
    }
}

/// A frame that the runtime does not want is begun and ended with nothing in it. Any other is
/// begun, the views are located, and then, for one view after the other, an image is taken,
/// waited for, drawn into and given back; what was drawn for the first view is copied before
/// that where it is wanted, and for no other view; at last the frame ends. Nothing else is
/// done.
pub proof fn law_frame_is_shown_view_by_view(
    should_render: bool,
    views: usize,
    capture: bool,
    r: Vec<FrameStep>,
    view: int,
)
    requires
        call_ensures(plan_frame, (should_render, views, capture), r),
        0 <= view < views,
    ensures
        !should_render ==> r@ == seq![FrameStep::Begin, FrameStep::EndSkipped],
        should_render ==> {
            let extra = if capture {
                1int
            } else {
                0int
            };
            let at = 2 + 4 * view + if view > 0 {
                extra
            } else {
                0
            };
            let copied = if capture && view == 0 {
                1int
            } else {
                0int
            };
            &&& r@.len() == 3 + 4 * views + extra
            &&& r@[0] == FrameStep::Begin
            &&& r@[1] == FrameStep::Locate
            &&& r@[at] == (FrameStep::Acquire { view: view as usize })
            &&& r@[at + 1] == (FrameStep::WaitImage { view: view as usize })
            &&& r@[at + 2] == (FrameStep::Draw { view: view as usize })
            &&& copied == 1 ==> r@[at + 3] == (FrameStep::Capture { view: view as usize })
            &&& r@[at + 3 + copied] == (FrameStep::Release { view: view as usize })
            &&& r@.last() == FrameStep::End
        },
{
    lemma_view_steps(views as int, capture, view);
    if should_render {
        let steps = all_view_steps(views as int, capture);
        let at = before_view(view, capture);
        assert(r@ == frame_steps(true, views as int, capture));
        assert(r@[2 + at] == steps[at]);
        assert(r@[2 + at + 1] == steps[at + 1]);
        assert(r@[2 + at + 2] == steps[at + 2]);
        assert(r@[2 + at + 3] == steps[at + 3]);
        if capture && view == 0 {
            assert(r@[2 + at + 4] == steps[at + 4]);
        }
    }
}

/// There has to be one swapchain for each view, and a framebuffer for the image that came.
pub proof fn law_views_and_images_have_to_be_there(
    located: usize,
    swapchains: usize,
    image_index: u32,
    framebuffers: usize,
    views: Result<(), Error>,
    image: Result<usize, Error>,
)
    requires
        call_ensures(check_view_count, (located, swapchains), views),
        call_ensures(check_image_index, (image_index, framebuffers), image),
    ensures
        views is Err <==> located < swapchains || located > swapchains,
        image is Err <==> image_index >= framebuffers,
        image matches Ok(i) ==> i == image_index,
{
}

/// The part of a wait is told by the last six digits of the clock.
pub proof fn law_jitter_is_the_last_six_digits(subsec_nanos: u32, r: u32)
    requires
        call_ensures(jitter_millionths, (subsec_nanos,), r),
    ensures
        r < 1_000_000,
        (subsec_nanos - r) % 1_000_000 == 0,
{
}

} // verus!
