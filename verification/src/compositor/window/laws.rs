//! What the atlas promises of every window and every point.

use vstd::prelude::*;

use super::{
    atlas_for, atlas_point_of, last_stamp, law_a_point_names_one_window,
    law_focus_goes_to_the_last_mapped, law_new_window_keeps_its_distance, lemma_position_at,
    local_pixel_of, mapped_last, position_at, position_of, AtlasPoint, AtlasRect,
    TrackedWindow, WindowId, WindowRegistry, WindowView,
};
use crate::error::Error;
use crate::id::IdView;
use crate::panel::cursor::PixelPoint;
use crate::panel::PanelPose;

verus! {

/// A rectangle holds as many columns as it is wide and as many rows as it is high, from its
/// own corner on, and no other point.
pub proof fn law_rectangle_holds_its_own_pixels(rect: AtlasRect, point: AtlasPoint, r: bool)
    requires
        call_ensures(AtlasRect::contains, (&rect, point), r),
    ensures
        r <==> 0 <= point.x - rect.x < rect.width_px && 0 <= point.y - rect.y < rect.height_px,
{
}

/// Two rectangles overlap exactly where there is a pixel that both hold.
pub proof fn law_overlapping_rectangles_share_a_pixel(a: AtlasRect, b: AtlasRect, r: bool)
    requires
        call_ensures(AtlasRect::overlaps, (&a, &b), r),
        a.width_px > 0,
        a.height_px > 0,
        b.width_px > 0,
        b.height_px > 0,
    ensures
        r <==> exists|x: int, y: int|
            {
                &&& 0 <= #[trigger] (x - a.x) < a.width_px
                &&& 0 <= x - b.x < b.width_px
                &&& 0 <= #[trigger] (y - a.y) < a.height_px
                &&& 0 <= y - b.y < b.height_px
            },
{
    if r {
        let x = if a.x >= b.x {
            a.x as int
        } else {
            b.x as int
        };
        let y = if a.y >= b.y {
            a.y as int
        } else {
            b.y as int
        };
        assert(0 <= x - a.x < a.width_px && 0 <= x - b.x < b.width_px);
        assert(0 <= y - a.y < a.height_px && 0 <= y - b.y < b.height_px);
    }
}

/// Every pixel of every window is found, whatever the sizes of the windows: at the point of
/// the atlas that lies so many columns and rows from the window's corner, the window is hit,
/// at that pixel.
pub proof fn law_every_pixel_of_a_window_is_found<H, S, P>(
    registry: WindowRegistry<H, S, P>,
    at: int,
    x: int,
    y: int,
    point: AtlasPoint,
    found: Option<&TrackedWindow<H, S, P>>,
    hit: Option<(WindowId, PixelPoint)>,
)
    requires
        registry.laid_out(),
        registry.gutter() >= 0,
        0 <= at < registry@.len(),
        0 <= x < registry@[at].rect.width_px,
        0 <= y < registry@[at].rect.height_px,
        point.x == registry@[at].rect.x + x,
        point.y == registry@[at].rect.y + y,
        call_ensures(WindowRegistry::<H, S, P>::window_at, (&registry, point), found),
        call_ensures(WindowRegistry::<H, S, P>::hit, (&registry, point), hit),
    ensures
        found is Some,
        found->0@ == registry@[at],
        match hit {
            Some((id, local)) => id@ == registry@[at].id && local.x == x && local.y == y,
            None => false,
        },
{
    law_a_point_names_one_window(registry, point.x as int, point.y as int);
    assert(registry@[at].rect.holds(point.x as int, point.y as int));
    assert forall|j: int| 0 <= j < at implies !(#[trigger] registry@[j]).rect.holds(
        point.x as int,
        point.y as int,
    ) by {
        assert(registry@[at].rect.holds(point.x as int, point.y as int));
    }
    lemma_position_at(registry@, point.x as int, point.y as int, at);
}

/// A point that is hit lies in the window that it hits, at the pixel that is told; one that
/// is not hit lies so many columns or rows beside every window.
pub proof fn law_hit_is_in_the_window<H, S, P>(
    registry: WindowRegistry<H, S, P>,
    point: AtlasPoint,
    hit: Option<(WindowId, PixelPoint)>,
)
    requires
        call_ensures(WindowRegistry::<H, S, P>::hit, (&registry, point), hit),
    ensures
        hit matches Some((id, local)) ==> exists|at: int|
            {
                &&& 0 <= at < registry@.len()
                &&& (#[trigger] registry@[at]).id == id@
                &&& registry@[at].rect.x + local.x == point.x
                &&& registry@[at].rect.y + local.y == point.y
                &&& 0 <= local.x < registry@[at].rect.width_px
                &&& 0 <= local.y < registry@[at].rect.height_px
            },
        hit is None ==> forall|at: int|
            0 <= at < registry@.len() ==> {
                let rect = (#[trigger] registry@[at]).rect;
                ||| point.x - rect.x < 0
                ||| point.x - rect.x >= rect.width_px
                ||| point.y - rect.y < 0
                ||| point.y - rect.y >= rect.height_px
            },
{
    lemma_found(registry@, point.x as int, point.y as int);
    let at = position_at(registry@, point.x as int, point.y as int) as int;
    if at < registry@.len() {
        assert(registry@[at].rect.holds(point.x as int, point.y as int));
    }
}

proof fn lemma_found<H, S, P>(windows: Seq<WindowView<H, S, P>>, x: int, y: int)
    ensures
        position_at(windows, x, y) <= windows.len(),
        position_at(windows, x, y) < windows.len() ==> windows[position_at(
            windows,
            x,
            y,
        ) as int].rect.holds(x, y),
        forall|j: int|
            0 <= j < position_at(windows, x, y) ==> !(#[trigger] windows[j]).rect.holds(x, y),
    decreases windows.len(),
{
    if windows.len() > 0 && !windows.first().rect.holds(x, y) {
        let rest = windows.drop_first();
        lemma_found(rest, x, y);
        assert forall|j: int| 0 <= j < position_at(windows, x, y) implies !(
        #[trigger] windows[j]).rect.holds(x, y) by {
            if j > 0 {
                assert(windows[j] == rest[j - 1]);
            }
        }
    }
}

proof fn lemma_named<H, S, P>(windows: Seq<WindowView<H, S, P>>, id: IdView)
    ensures
        position_of(windows, id) <= windows.len(),
        position_of(windows, id) < windows.len() ==> windows[position_of(windows, id) as int].id
            == id,
        forall|j: int| 0 <= j < position_of(windows, id) ==> (#[trigger] windows[j]).id != id,
    decreases windows.len(),
{
    if windows.len() > 0 && windows.first().id != id {
        let rest = windows.drop_first();
        lemma_named(rest, id);
        assert forall|j: int| 0 <= j < position_of(windows, id) implies (
        #[trigger] windows[j]).id != id by {
            if j > 0 {
                assert(windows[j] == rest[j - 1]);
            }
        }
    }
}

/// A window is found by its name: the first that bears it, and none where none does.
pub proof fn law_window_is_found_by_its_name<H, S, P>(
    registry: WindowRegistry<H, S, P>,
    id: WindowId,
    r: Option<&TrackedWindow<H, S, P>>,
)
    requires
        call_ensures(WindowRegistry::<H, S, P>::get, (&registry, &id), r),
    ensures
        r is None <==> forall|i: int| 0 <= i < registry@.len() ==> (#[trigger] registry@[i]).id != id@,
        r matches Some(w) ==> w@.id == id@ && exists|i: int|
            {
                &&& 0 <= i < registry@.len()
                &&& #[trigger] registry@[i] == w@
                &&& forall|j: int| 0 <= j < i ==> (#[trigger] registry@[j]).id != id@
            },
{
    lemma_named(registry@, id@);
}

/// The point of a pixel and the pixel of a point belong together: both count from the corner
/// of the rectangle.
pub proof fn law_pixels_count_from_the_corner(
    rect: AtlasRect,
    local: PixelPoint,
    point: AtlasPoint,
    back: PixelPoint,
)
    requires
        call_ensures(atlas_point_of, (rect, local), point),
        call_ensures(local_pixel_of, (rect, point), back),
    ensures
        point.x - local.x == rect.x,
        point.y - local.y == rect.y,
        back == local,
{
}

/// A window that is inserted is the last of the registry and the one that is handed back. It
/// has the name, the handle and the size that it was given, shows nothing yet, leaves room
/// for a gutter to every other window, and takes the place in line that its number and width
/// give where that is far enough from all of them. The others stay as they are.
pub proof fn law_inserted_window_stands_apart<H, S, P>(
    registry: &mut WindowRegistry<H, S, P>,
    id: WindowId,
    handle: H,
    size_px: (i32, i32),
    plane_size: S,
    plane_pose: PanelPose<P>,
    r: Result<&TrackedWindow<H, S, P>, Error>,
)
    requires
        registry.laid_out(),
        registry.has_room(size_px),
        call_ensures(
            WindowRegistry::<H, S, P>::insert,
            (registry, id, handle, size_px, plane_size, plane_pose),
            r,
        ),
    ensures
        r is Ok <==> size_px.0 > 0 && size_px.1 > 0,
        r is Err ==> final(registry)@ == old(registry)@ && final(registry).placed() == old(
            registry,
        ).placed(),
        r matches Ok(w) ==> {
            let before = old(registry)@;
            let after = final(registry)@;
            let gutter = old(registry).gutter() as int;
            let number = old(registry).placed() as int;
            let in_line = number * (size_px.0 + gutter);
            &&& after.len() == before.len() + 1
            &&& forall|i: int| 0 <= i < before.len() ==> #[trigger] after[i] == before[i]
            &&& w@ == after.last()
            &&& w@.id == id@
            &&& w@.handle == handle
            &&& !w@.mapped
            &&& w@.rect.y == 0
            &&& w@.rect.width_px == size_px.0
            &&& w@.rect.height_px == size_px.1
            &&& w@.plane.size == plane_size
            &&& w@.plane.pose == plane_pose
            &&& w@.plane.resolution.width_px == size_px.0
            &&& w@.plane.resolution.height_px == size_px.1
            &&& forall|i: int|
                0 <= i < before.len() ==> {
                    let other = (#[trigger] before[i]).rect;
                    ||| other.x + other.width_px + gutter <= w@.rect.x
                    ||| w@.rect.x + size_px.0 + gutter <= other.x
                }
            &&& (forall|i: int|
                0 <= i < before.len() ==> {
                    let other = (#[trigger] before[i]).rect;
                    ||| other.x + other.width_px + gutter <= in_line
                    ||| in_line + size_px.0 + gutter <= other.x
                }) ==> w@.rect.x == in_line
            &&& final(registry).placed() == number + 1
            &&& final(registry).laid_out()
        },
{
    if r is Ok {
        law_new_window_keeps_its_distance(*registry, size_px.0 as int);
        let before = registry@;
        let after = final(registry)@;
        let gutter = registry.gutter() as int;
        let in_line = registry.placed() * (size_px.0 + gutter);
        assert(after.last().rect.x == registry.next_place(size_px.0 as int));
        assert(super::place_in_line(gutter, registry.placed() as int, size_px.0 as int) == in_line);
        if forall|i: int|
            0 <= i < before.len() ==> {
                let other = (#[trigger] before[i]).rect;
                ||| other.x + other.width_px + gutter <= in_line
                ||| in_line + size_px.0 + gutter <= other.x
            } {
            assert(super::is_clear(before, gutter, in_line, size_px.0 as int));
        }
    }
}

/// The first window of a registry stands at the left end of the atlas.
pub proof fn law_first_window_stands_at_the_left_end<H, S, P>(
    fresh: WindowRegistry<H, S, P>,
    registry: &mut WindowRegistry<H, S, P>,
    gutter_px: i32,
    id: WindowId,
    handle: H,
    size_px: (i32, i32),
    plane_size: S,
    plane_pose: PanelPose<P>,
    r: Result<&TrackedWindow<H, S, P>, Error>,
)
    requires
        call_ensures(WindowRegistry::<H, S, P>::new, (gutter_px,), fresh),
        *registry == fresh,
        registry.has_room(size_px),
        call_ensures(
            WindowRegistry::<H, S, P>::insert,
            (registry, id, handle, size_px, plane_size, plane_pose),
            r,
        ),
        r is Ok,
    ensures
        final(registry)@.len() == 1,
        final(registry)@[0].rect.x == 0,
        final(registry)@[0].rect.y == 0,
{
    assert(0 * (size_px.0 + gutter_px) == 0);
}

/// A place in line lies as many widths and gutters from the left end as its number says.
pub proof fn law_places_in_line_are_a_width_and_a_gutter_apart(
    gutter_px: i32,
    index: usize,
    size_px: (i32, i32),
    a: AtlasRect,
    b: AtlasRect,
)
    requires
        index < usize::MAX,
        super::line_reaches(gutter_px as int, index as int, size_px.0 as int),
        super::line_reaches(gutter_px as int, index + 1, size_px.0 as int),
        call_ensures(atlas_for, (gutter_px, index, size_px), a),
        call_ensures(atlas_for, (gutter_px, (index + 1) as usize, size_px), b),
    ensures
        index == 0 ==> a.x == 0,
        b.x - a.x == size_px.0 + gutter_px,
        a.y == 0 && b.y == 0,
        a.width_px == size_px.0 && a.height_px == size_px.1,
{
    let pitch = size_px.0 + gutter_px;
    assert((index + 1) * pitch == index * pitch + pitch) by (nonlinear_arith);
    if index == 0 {
        assert(index * pitch == 0);
    }
}

/// The window that was mapped last has the keyboard: a window that shows nothing yet, is
/// looked up by its name and is mapped then, gets it, wherever it stands among the others.
pub proof fn law_window_mapped_now_gets_the_keyboard<H, S, P>(
    registry: &mut WindowRegistry<H, S, P>,
    window: &mut TrackedWindow<H, S, P>,
    id: WindowId,
    r: Option<&TrackedWindow<H, S, P>>,
)
    requires
        call_ensures(WindowRegistry::<H, S, P>::get_mut, (registry, &id), Some(window)),
        !window@.mapped,
        last_stamp(registry@) < u64::MAX,
        call_ensures(TrackedWindow::<H, S, P>::mark_mapped, (window,), ()),
        call_ensures(WindowRegistry::<H, S, P>::focus_candidate, (&*final(registry),), r),
    ensures
        r is Some,
        r->0@.id == id@,
        r->0@.mapped,
{
    let before = registry@;
    lemma_named(before, id@);
    let at = position_of(before, id@) as int;
    law_focus_goes_to_the_last_mapped(before, at);
    let after = final(registry)@;
    assert(after[at].mapped);
    assert(mapped_last(after, at));
}

/// The keyboard goes to a window that shows something, and to none only where none does.
pub proof fn law_keyboard_goes_to_a_mapped_window<H, S, P>(
    registry: WindowRegistry<H, S, P>,
    r: Option<&TrackedWindow<H, S, P>>,
)
    requires
        call_ensures(WindowRegistry::<H, S, P>::focus_candidate, (&registry,), r),
    ensures
        r is Some <==> exists|i: int| 0 <= i < registry@.len() && (#[trigger] registry@[i]).mapped,
        r matches Some(w) ==> w@.mapped && registry@.contains(w@) && forall|i: int|
            0 <= i < registry@.len() && (#[trigger] registry@[i]).mapped ==> registry@[i].stamp
                <= w@.stamp,
{
    if let Some(w) = r {
        let at = choose|at: int| #[trigger] mapped_last(registry@, at) && w@ == registry@[at];
        assert(registry@[at].mapped);
    }
}

} // verus!
