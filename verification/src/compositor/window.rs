//! The windows: where each stands on the atlas and in the room, and which of them a
//! point falls into.
//!
//! The atlas is a strip on which the windows stand in line, with a gutter between any two.
//! Each takes the place in line that its number and its own width give; where that is too
//! near to another window, it stands beyond all places that were given away before. So no two
//! windows overlap, whatever their sizes, and a point falls into one window at most.

use vstd::prelude::*;

use crate::error::{plain_error, DetailView, Error, ErrorCode, ErrorView};
use crate::id::{Id, IdView, TraceId};
use crate::panel::cursor::{to_pixels, PixelPoint};
use crate::panel::{Geometry, Panel, PanelPose, PanelResolution, PanelView};
use crate::text::same_text;

pub mod laws;

verus! {

/// Names a window.
#[derive(Debug, PartialEq, Eq, Hash)]
pub struct WindowId(Id);

impl View for WindowId {
    type V = IdView;

    closed spec fn view(&self) -> IdView {
        self.0@
    }
}

impl Clone for WindowId {
    fn clone(&self) -> (r: Self)
        ensures
            r@ == self@,
    {
        WindowId(self.0.clone())
    }
}

impl WindowId {
    /// The window named by `id`.
    pub fn new(id: Id) -> (r: Self)
        ensures
            r@ == id@,
    {
        WindowId(id)
    }

    /// The text of the name.
    pub fn as_str(&self) -> (r: &str)
        ensures
            r@ == self@.text,
            r@.len() > 0,
    {
        self.0.as_str()
    }

    /// The identifier.
    pub fn id(&self) -> (r: &Id)
        ensures
            r@ == self@,
    {
        &self.0
    }

    /// Whether two names are the same.
    pub fn same(&self, other: &WindowId) -> (r: bool)
        ensures
            r == (self@ == other@),
    {
        self.0.scheme() == other.0.scheme() && same_text(self.0.as_str(), other.0.as_str())
    }
}

/// A whole point of the atlas: the pixel that a point falls into.
#[derive(Debug, Clone, Copy, PartialEq, Eq, Structural)]
pub struct AtlasPoint {
    pub x: i64,
    pub y: i64,
}

/// A rectangle of the atlas.
#[derive(Debug, Clone, Copy, PartialEq, Eq, Structural)]
pub struct AtlasRect {
    pub x: i32,
    pub y: i32,
    pub width_px: i32,
    pub height_px: i32,
}

impl AtlasRect {
    /// Whether a point lies in the rectangle: its left and upper edges belong to it, its
    /// right and lower edges do not.
    pub open spec fn holds(self, x: int, y: int) -> bool {
        &&& self.x <= x < self.x + self.width_px
        &&& self.y <= y < self.y + self.height_px
    }

    /// Whether the inner parts of two rectangles meet.
    pub open spec fn meets(self, other: AtlasRect) -> bool {
        &&& self.x < other.x + other.width_px
        &&& other.x < self.x + self.width_px
        &&& self.y < other.y + other.height_px
        &&& other.y < self.y + self.height_px
    }

    /// Whether a point lies in the rectangle.
    pub fn contains(&self, point: AtlasPoint) -> (r: bool)
        ensures
            r == self.holds(point.x as int, point.y as int),
    {
        let right: i64 = self.x as i64 + self.width_px as i64;
        let lower: i64 = self.y as i64 + self.height_px as i64;
        point.x >= self.x as i64 && point.y >= self.y as i64 && point.x < right && point.y < lower
    }

    /// Whether the inner parts of two rectangles meet.
    pub fn overlaps(&self, other: &AtlasRect) -> (r: bool)
        ensures
            r == self.meets(*other),
    {
        (self.x as i64) < other.x as i64 + other.width_px as i64 && (other.x as i64) < self.x as i64
            + self.width_px as i64 && (self.y as i64) < other.y as i64 + other.height_px as i64 && (
        other.y as i64) < self.y as i64 + self.height_px as i64
    }
}

/// Two rectangles that do not overlap have no point in common.
pub proof fn law_apart_rectangles_share_no_point(a: AtlasRect, b: AtlasRect, x: int, y: int)
    requires
        !a.meets(b),
    ensures
        !(a.holds(x, y) && b.holds(x, y)),
{
}

/// The point of the atlas at a pixel of a rectangle.
pub fn atlas_point_of(rect: AtlasRect, local: PixelPoint) -> (r: AtlasPoint)
    ensures
        r.x == rect.x + local.x,
        r.y == rect.y + local.y,
{
    AtlasPoint { x: rect.x as i64 + local.x as i64, y: rect.y as i64 + local.y as i64 }
}

/// A number as far as it fits.
pub open spec fn clamped(n: int) -> int {
    if n < i32::MIN {
        i32::MIN as int
    } else if n > i32::MAX {
        i32::MAX as int
    } else {
        n
    }
}

fn clamp_to_i32(n: i128) -> (r: i32)
    ensures
        r == clamped(n as int),
{
    if n < -0x8000_0000 {
        i32::MIN
    } else if n > 0x7fff_ffff {
        i32::MAX
    } else {
        n as i32
    }
}

/// The pixel of a rectangle at a point of the atlas, as far as it can be written down.
pub fn local_pixel_of(rect: AtlasRect, point: AtlasPoint) -> (r: PixelPoint)
    ensures
        r.x == clamped(point.x - rect.x),
        r.y == clamped(point.y - rect.y),
{
    PixelPoint {
        x: clamp_to_i32(point.x as i128 - rect.x as i128),
        y: clamp_to_i32(point.y as i128 - rect.y as i128),
    }
}

/// The pixel of the point of a pixel is that pixel.
pub proof fn law_local_pixel_round_trip(rect: AtlasRect, local: PixelPoint)
    ensures
        clamped((rect.x + local.x) - rect.x) == local.x,
        clamped((rect.y + local.y) - rect.y) == local.y,
{
}

/// The error of a window without a positive size.
pub open spec fn size_error(width_px: int, height_px: int) -> ErrorView {
    plain_error(ErrorCode::InvalidArgument, "window size must be positive"@).with(
        "width_px"@,
        DetailView::Int(width_px),
    ).with("height_px"@, DetailView::Int(height_px))
}

fn invalid_size(width_px: i32, height_px: i32) -> (r: Error)
    ensures
        r@ == size_error(width_px as int, height_px as int),
{
    Error::new(
        ErrorCode::InvalidArgument,
        "window size must be positive",
        TraceId::unattributed(),
    ).with_detail("width_px", width_px as i64).with_detail("height_px", height_px as i64)
}

/// The resolution of a window's plane, or why there is none: a negative size is no
/// window size, and a zero one is no resolution.
pub open spec fn plane_resolution_of(width_px: int, height_px: int) -> Result<(int, int), ErrorView> {
    if width_px < 0 || height_px < 0 {
        Err(size_error(width_px, height_px))
    } else if width_px == 0 || height_px == 0 {
        Err(
            plain_error(
                ErrorCode::InvalidArgument,
                "panel resolution must be non-zero in both axes"@,
            ).with("width_px"@, DetailView::Int(width_px)).with(
                "height_px"@,
                DetailView::Int(height_px),
            ),
        )
    } else {
        Ok((width_px, height_px))
    }
}

/// The resolution of a window's plane, or why there is none.
pub fn plane_resolution(size_px: (i32, i32)) -> (r: Result<PanelResolution, Error>)
    ensures
        match plane_resolution_of(size_px.0 as int, size_px.1 as int) {
            Ok((w, h)) => r is Ok && r->Ok_0.width_px == w && r->Ok_0.height_px == h,
            Err(e) => r is Err && r->Err_0@ == e,
        },
{
    if size_px.0 < 0 || size_px.1 < 0 {
        return Err(invalid_size(size_px.0, size_px.1));
    }
    PanelResolution::new(size_px.0 as u32, size_px.1 as u32)
}

/// The rectangle as four numbers: left, top, width, height.
pub open spec fn rect_numbers(rect: AtlasRect) -> (int, int, int, int) {
    (rect.x as int, rect.y as int, rect.width_px as int, rect.height_px as int)
}

/// Where the place in line with the given number begins.
pub open spec fn place_in_line(gutter_px: int, index: int, width_px: int) -> int {
    index * (width_px + gutter_px)
}

/// Whether the line reaches that far: the place and the way to it can be written down.
pub open spec fn line_reaches(gutter_px: int, index: int, width_px: int) -> bool {
    &&& 0 <= index <= i32::MAX
    &&& i32::MIN <= width_px + gutter_px <= i32::MAX
    &&& i32::MIN <= place_in_line(gutter_px, index, width_px) <= i32::MAX
}

/// The place in line with the given number, for a window of the given size.
pub fn atlas_for(gutter_px: i32, index: usize, size_px: (i32, i32)) -> (r: AtlasRect)
    requires
        line_reaches(gutter_px as int, index as int, size_px.0 as int),
    ensures
        rect_numbers(r) == (
            place_in_line(gutter_px as int, index as int, size_px.0 as int),
            0int,
            size_px.0 as int,
            size_px.1 as int,
        ),
{
    AtlasRect {
        x: (index as i32) * (size_px.0 + gutter_px),
        y: 0,
        width_px: size_px.0,
        height_px: size_px.1,
    }
}

/// Whether a gutter fits between two places, of which the left ends and widths are given.
pub open spec fn stand_apart(gutter_px: int, a: int, a_width: int, b: int, b_width: int) -> bool {
    a + a_width + gutter_px <= b || b + b_width + gutter_px <= a
}

/// Whether a gutter fits between two windows.
pub open spec fn kept_apart<H, S, P>(
    gutter_px: int,
    a: WindowView<H, S, P>,
    b: WindowView<H, S, P>,
) -> bool {
    stand_apart(
        gutter_px,
        a.rect.x as int,
        a.rect.width_px as int,
        b.rect.x as int,
        b.rect.width_px as int,
    )
}

/// Whether a gutter fits between a place and every window.
pub open spec fn is_clear<H, S, P>(
    windows: Seq<WindowView<H, S, P>>,
    gutter_px: int,
    left: int,
    width_px: int,
) -> bool {
    forall|i: int|
        0 <= i < windows.len() ==> stand_apart(
            gutter_px,
            (#[trigger] windows[i]).rect.x as int,
            windows[i].rect.width_px as int,
            left,
            width_px,
        )
}

/// The right edge of all places once one more was given away.
pub open spec fn next_edge(edge: int, left: int, width_px: int) -> int {
    if edge > left + width_px {
        edge
    } else {
        left + width_px
    }
}

/// One window.
#[derive(Debug)]
pub struct TrackedWindow<H, S, P> {
    id: WindowId,
    handle: H,
    rect: AtlasRect,
    plane: Panel<S, P>,
    mapped: bool,
    stamp: u64,
}

/// What a [`TrackedWindow`] holds. The stamp of a window that shows something orders it among
/// the others by when it began to; that of another window is the one it would begin with.
pub struct WindowView<H, S, P> {
    pub id: IdView,
    pub handle: H,
    pub rect: AtlasRect,
    pub plane: PanelView<S, P>,
    pub mapped: bool,
    pub stamp: u64,
}

impl<H, S, P> View for TrackedWindow<H, S, P> {
    type V = WindowView<H, S, P>;

    closed spec fn view(&self) -> WindowView<H, S, P> {
        WindowView {
            id: self.id@,
            handle: self.handle,
            rect: self.rect,
            plane: self.plane@,
            mapped: self.mapped,
            stamp: self.stamp,
        }
    }
}

impl<H, S, P> TrackedWindow<H, S, P> {
    /// Its name.
    pub fn id(&self) -> (r: &WindowId)
        ensures
            r@ == self@.id,
    {
        &self.id
    }

    /// What the host knows it by.
    pub fn handle(&self) -> (r: &H)
        ensures
            *r == self@.handle,
    {
        &self.handle
    }

    /// Its place on the atlas.
    pub fn rect(&self) -> (r: AtlasRect)
        ensures
            r == self@.rect,
    {
        self.rect
    }

    /// Its plane in the room.
    pub fn plane(&self) -> (r: &Panel<S, P>)
        ensures
            r@ == self@.plane,
    {
        &self.plane
    }

    /// Whether it shows anything.
    pub fn is_mapped(&self) -> (r: bool)
        ensures
            r == self@.mapped,
    {
        self.mapped
    }

    /// Takes note that it shows something, from now on if it did not before.
    pub fn mark_mapped(&mut self)
        ensures
            final(self)@ == (WindowView { mapped: true, ..old(self)@ }),
    {
        self.mapped = true;
    }
}

impl<H, S: Copy, P: Copy> TrackedWindow<H, S, P> {
    /// The atlas point of a point of the window's plane. Beyond an edge of the window it
    /// lies outside its rectangle.
    pub fn atlas_point<G: Geometry<Size = S, Pose = P>>(&self, point: G::Point) -> (r: AtlasPoint)
        ensures
            r.x == self@.rect.x + G::pixel(self@.plane.size, self@.plane.resolution, point).x,
            r.y == self@.rect.y + G::pixel(self@.plane.size, self@.plane.resolution, point).y,
    {
        atlas_point_of(self.rect, to_pixels::<G>(&self.plane, point))
    }

    /// Moves its plane in the room.
    pub fn set_plane_pose(&mut self, pose: PanelPose<P>)
        ensures
            final(self)@ == (WindowView {
                plane: PanelView { pose, ..old(self)@.plane },
                ..old(self)@
            }),
    {
        self.plane = Panel::single(self.plane.size(), self.plane.resolution(), pose);
    }
}

/// The windows in the order in which they came, how many places were given away, and the
/// right edge of these.
#[derive(Debug)]
pub struct WindowRegistry<H, S, P> {
    windows: Vec<TrackedWindow<H, S, P>>,
    gutter_px: i32,
    placed_so_far: usize,
    edge_px: i64,
}

/// The position of the first window with the name, or the number of windows.
pub open spec fn position_of<H, S, P>(windows: Seq<WindowView<H, S, P>>, id: IdView) -> nat
    decreases windows.len(),
{
    if windows.len() == 0 || windows.first().id == id {
        0
    } else {
        1 + position_of(windows.drop_first(), id)
    }
}

/// The position of the first window that holds the point, or the number of windows.
pub open spec fn position_at<H, S, P>(windows: Seq<WindowView<H, S, P>>, x: int, y: int) -> nat
    decreases windows.len(),
{
    if windows.len() == 0 || windows.first().rect.holds(x, y) {
        0
    } else {
        1 + position_at(windows.drop_first(), x, y)
    }
}

/// The largest stamp of the windows that show something, or zero.
pub open spec fn last_stamp<H, S, P>(windows: Seq<WindowView<H, S, P>>) -> u64
    decreases windows.len(),
{
    if windows.len() == 0 {
        0
    } else {
        let before = last_stamp(windows.drop_last());
        if windows.last().mapped && windows.last().stamp > before {
            windows.last().stamp
        } else {
            before
        }
    }
}

/// The stamp of the window that is mapped next: beyond all others, as far as stamps go.
pub open spec fn next_stamp<H, S, P>(windows: Seq<WindowView<H, S, P>>) -> u64 {
    if last_stamp(windows) < u64::MAX {
        (last_stamp(windows) + 1) as u64
    } else {
        u64::MAX
    }
}

/// A window as it is handed out to be changed: one that does not show anything has the stamp
/// that it is mapped with, should it be mapped now.
pub open spec fn handed_out<H, S, P>(windows: Seq<WindowView<H, S, P>>, at: int) -> WindowView<
    H,
    S,
    P,
> {
    if windows[at].mapped {
        windows[at]
    } else {
        WindowView { stamp: next_stamp(windows), ..windows[at] }
    }
}

/// Whether the window at `at` was mapped after every other that shows something.
pub open spec fn mapped_last<H, S, P>(windows: Seq<WindowView<H, S, P>>, at: int) -> bool {
    &&& 0 <= at < windows.len()
    &&& windows[at].mapped
    &&& forall|j: int|
        0 <= j < windows.len() && (#[trigger] windows[j]).mapped ==> windows[j].stamp
            < windows[at].stamp || (windows[j].stamp == windows[at].stamp && j <= at)
}

/// How many windows show something.
pub open spec fn mapped_count<H, S, P>(windows: Seq<WindowView<H, S, P>>) -> nat
    decreases windows.len(),
{
    if windows.len() == 0 {
        0
    } else {
        mapped_count(windows.drop_last()) + if windows.last().mapped {
            1nat
        } else {
            0nat
        }
    }
}

/// Whether `at` is the first position whose handle the predicate answers with yes.
pub open spec fn first_match<H, S, P, F: Fn(&H) -> bool>(
    windows: Seq<WindowView<H, S, P>>,
    predicate: F,
    at: int,
) -> bool {
    &&& 0 <= at < windows.len()
    &&& call_ensures(predicate, (&windows[at].handle,), true)
    &&& forall|j: int|
        0 <= j < at ==> call_ensures(predicate, (&(#[trigger] windows[j]).handle,), false)
}

/// Whether the predicate answers every handle with no.
pub open spec fn no_match<H, S, P, F: Fn(&H) -> bool>(
    windows: Seq<WindowView<H, S, P>>,
    predicate: F,
) -> bool {
    forall|j: int|
        0 <= j < windows.len() ==> call_ensures(
            predicate,
            (&(#[trigger] windows[j]).handle,),
            false,
        )
}

spec fn window_views<H, S, P>(windows: Seq<TrackedWindow<H, S, P>>) -> Seq<WindowView<H, S, P>> {
    Seq::new(windows.len(), |i: int| windows[i]@)
}

impl<H, S, P> View for WindowRegistry<H, S, P> {
    type V = Seq<WindowView<H, S, P>>;

    closed spec fn view(&self) -> Seq<WindowView<H, S, P>> {
        window_views(self.windows@)
    }
}

pub(crate) proof fn lemma_position_of<H, S, P>(windows: Seq<WindowView<H, S, P>>, id: IdView, at: int)
    requires
        0 <= at <= windows.len(),
        at < windows.len() ==> windows[at].id == id,
        forall|j: int| 0 <= j < at ==> (#[trigger] windows[j]).id != id,
    ensures
        position_of(windows, id) == at,
    decreases windows.len(),
{
    if at > 0 {
        assert(windows[0].id != id);
        let rest = windows.drop_first();
        assert forall|j: int| 0 <= j < at - 1 implies (#[trigger] rest[j]).id != id by {
            assert(rest[j] == windows[j + 1]);
        }
        lemma_position_of(rest, id, at - 1);
    }
}

proof fn lemma_position_at<H, S, P>(windows: Seq<WindowView<H, S, P>>, x: int, y: int, at: int)
    requires
        0 <= at <= windows.len(),
        at < windows.len() ==> windows[at].rect.holds(x, y),
        forall|j: int| 0 <= j < at ==> !(#[trigger] windows[j]).rect.holds(x, y),
    ensures
        position_at(windows, x, y) == at,
    decreases windows.len(),
{
    if at > 0 {
        assert(!windows[0].rect.holds(x, y));
        let rest = windows.drop_first();
        assert forall|j: int| 0 <= j < at - 1 implies !(#[trigger] rest[j]).rect.holds(x, y) by {
            assert(rest[j] == windows[j + 1]);
        }
        lemma_position_at(rest, x, y, at - 1);
    }
}

impl<H, S, P> WindowRegistry<H, S, P> {
    /// The width of the gutter between two places.
    pub closed spec fn gutter(&self) -> i32 {
        self.gutter_px
    }

    /// How many places were given away.
    pub closed spec fn placed(&self) -> usize {
        self.placed_so_far
    }

    /// The right edge of all places that were given away.
    pub closed spec fn edge(&self) -> int {
        self.edge_px as int
    }

    /// Where the next place begins, for a window of the given width: its place in line, or,
    /// where that is not clear, a gutter beyond all places that were given away.
    pub open spec fn next_place(&self, width_px: int) -> int {
        let in_line = place_in_line(self.gutter() as int, self.placed() as int, width_px);
        if is_clear(self@, self.gutter() as int, in_line, width_px) {
            in_line
        } else {
            self.edge() + self.gutter()
        }
    }

    /// Whether no window reaches beyond the places that were given away, and a gutter fits
    /// between any two windows. It holds from the beginning, and all that is done with the
    /// registry keeps it.
    pub open spec fn laid_out(&self) -> bool {
        &&& forall|i: int|
            0 <= i < self@.len() ==> (#[trigger] self@[i]).rect.x + self@[i].rect.width_px
                <= self.edge()
        &&& forall|i: int, j: int|
            0 <= i < self@.len() && 0 <= j < self@.len() && i != j ==> kept_apart(
                self.gutter() as int,
                #[trigger] self@[i],
                #[trigger] self@[j],
            )
    }

    /// No window, and no place given away.
    pub fn new(gutter_px: i32) -> (r: Self)
        ensures
            r@ == Seq::<WindowView<H, S, P>>::empty(),
            r.gutter() == gutter_px,
            r.placed() == 0,
            r.edge() == 0,
            r.laid_out(),
    {
        let r = WindowRegistry { windows: Vec::new(), gutter_px, placed_so_far: 0, edge_px: 0 };
        assert(r@ =~= Seq::<WindowView<H, S, P>>::empty());
        r
    }

    /// How many windows there are.
    pub fn len(&self) -> (r: usize)
        ensures
            r == self@.len(),
    {
        self.windows.len()
    }

    /// Whether there is no window.
    pub fn is_empty(&self) -> (r: bool)
        ensures
            r == (self@.len() == 0),
    {
        self.windows.len() == 0
    }

    /// The number of the next place.
    pub fn next_index(&self) -> (r: usize)
        ensures
            r == self.placed(),
    {
        self.placed_so_far
    }

    /// The windows in the order in which they came.
    pub fn windows(&self) -> (r: &[TrackedWindow<H, S, P>])
        ensures
            r@.len() == self@.len(),
            forall|i: int| 0 <= i < r@.len() ==> (#[trigger] r@[i])@ == self@[i],
    {
        self.windows.as_slice()
    }

    /// Whether a window of the given size can be placed, or is refused for its size: its place
    /// in line and the place that it gets can be written down.
    pub open spec fn has_room(&self, size_px: (i32, i32)) -> bool {
        plane_resolution_of(size_px.0 as int, size_px.1 as int) is Ok ==> {
            &&& line_reaches(self.gutter() as int, self.placed() as int, size_px.0 as int)
            &&& i32::MIN <= self.next_place(size_px.0 as int) <= i32::MAX
        }
    }

    /// Whether a window of the given size can be placed, or is refused for its size.
    pub fn room_for(&self, size_px: (i32, i32)) -> (r: bool)
        ensures
            r == self.has_room(size_px),
    {
        if size_px.0 <= 0 || size_px.1 <= 0 {
            return true;
        }
        let pitch: i64 = size_px.0 as i64 + self.gutter_px as i64;
        if self.placed_so_far > 0x7fff_ffff || pitch < -0x8000_0000 || pitch > 0x7fff_ffff {
            return false;
        }
        let index: i64 = self.placed_so_far as i64;
        assert(-0x8000_0000 * 0x7fff_ffff <= index * pitch <= 0x7fff_ffff * 0x7fff_ffff)
            by (nonlinear_arith)
            requires
                0 <= index <= 0x7fff_ffff,
                -0x8000_0000 <= pitch <= 0x7fff_ffff,
        ;
        let in_line: i64 = index * pitch;
        if in_line < -0x8000_0000 || in_line > 0x7fff_ffff {
            return false;
        }
        let left: i128 = self.left_of_next(size_px);
        -0x8000_0000 <= left && left <= 0x7fff_ffff
    }

    fn place_is_clear(&self, rect: &AtlasRect) -> (r: bool)
        ensures
            r == is_clear(
                self@,
                self.gutter() as int,
                rect.x as int,
                rect.width_px as int,
            ),
    {
        let gutter: i64 = self.gutter_px as i64;
        let left: i64 = rect.x as i64;
        let right: i64 = left + rect.width_px as i64;
        let mut i: usize = 0;
        while i < self.windows.len()
            invariant
                i <= self.windows.len(),
                gutter == self.gutter(),
                left == rect.x,
                right == rect.x + rect.width_px,
                forall|j: int|
                    0 <= j < i ==> stand_apart(
                        gutter as int,
                        (#[trigger] self@[j]).rect.x as int,
                        self@[j].rect.width_px as int,
                        rect.x as int,
                        rect.width_px as int,
                    ),
            decreases self.windows.len() - i,
        {
            let other = self.windows[i].rect;
            assert(self@[i as int].rect == other);
            let before = other.x as i64 + other.width_px as i64 + gutter <= left;
            let behind = right + gutter <= other.x as i64;
            if !before && !behind {
                return false;
            }
            i = i + 1;
        }
        true
    }

    fn left_of_next(&self, size_px: (i32, i32)) -> (r: i128)
        requires
            line_reaches(self.gutter() as int, self.placed() as int, size_px.0 as int),
        ensures
            r == self.next_place(size_px.0 as int),
    {
        let in_line = atlas_for(self.gutter_px, self.placed_so_far, size_px);
        if self.place_is_clear(&in_line) {
            in_line.x as i128
        } else {
            self.edge_px as i128 + self.gutter_px as i128
        }
    }

    /// Tracks a window at the next place, and hands it back. The size of its plane and where
    /// that stands come from the ring; its resolution is the window's size. A size without a
    /// resolution is refused and takes no place.
    pub fn insert(
        &mut self,
        id: WindowId,
        handle: H,
        size_px: (i32, i32),
        plane_size: S,
        plane_pose: PanelPose<P>,
    ) -> (r: Result<&TrackedWindow<H, S, P>, Error>)
        requires
            old(self).has_room(size_px),
        ensures
            final(self).gutter() == old(self).gutter(),
            match plane_resolution_of(size_px.0 as int, size_px.1 as int) {
                Err(e) => {
                    &&& r is Err
                    &&& r->Err_0@ == e
                    &&& final(self)@ == old(self)@
                    &&& final(self).placed() == old(self).placed()
                    &&& final(self).edge() == old(self).edge()
                },
                Ok(_) => {
                    &&& r is Ok
                    &&& r->Ok_0@ == final(self)@.last()
                    &&& final(self).placed() == old(self).placed() + 1
                    &&& final(self).edge() == next_edge(
                        old(self).edge(),
                        old(self).next_place(size_px.0 as int),
                        size_px.0 as int,
                    )
                    &&& final(self)@ == old(self)@.push(final(self)@.last())
                    &&& final(self)@.last().id == id@
                    &&& final(self)@.last().handle == handle
                    &&& !final(self)@.last().mapped
                    &&& final(self)@.last().stamp == 0
                    &&& rect_numbers(final(self)@.last().rect) == (
                        old(self).next_place(size_px.0 as int),
                        0int,
                        size_px.0 as int,
                        size_px.1 as int,
                    )
                    &&& final(self)@.last().plane == (PanelView {
                        size: plane_size,
                        resolution: PanelResolution {
                            width_px: size_px.0 as u32,
                            height_px: size_px.1 as u32,
                        },
                        pose: plane_pose,
                    })
                },
            },
            old(self).laid_out() ==> final(self).laid_out(),
    {
        let resolution = match plane_resolution(size_px) {
            Ok(resolution) => resolution,
            Err(e) => return Err(e),
        };
        let left: i32 = self.left_of_next(size_px) as i32;
        let rect = AtlasRect { x: left, y: 0, width_px: size_px.0, height_px: size_px.1 };
        let right: i64 = left as i64 + size_px.0 as i64;
        if right > self.edge_px {
            self.edge_px = right;
        }
        self.placed_so_far = self.placed_so_far + 1;
        self.windows.push(
            TrackedWindow {
                id,
                handle,
                rect,
                plane: Panel::single(plane_size, resolution, plane_pose),
                mapped: false,
                stamp: 0,
            },
        );
        assert(self@.drop_last() =~= old(self)@);
        assert(self@ =~= old(self)@.push(self@.last()));
        proof {
            if old(self).laid_out() {
                lemma_new_place_is_clear(old(self), self);
            }
        }
        let last: usize = self.windows.len() - 1;
        Ok(&self.windows[last])
    }

    fn index_of(&self, id: &WindowId) -> (r: usize)
        ensures
            r == position_of(self@, id@),
            r <= self@.len(),
            r < self@.len() ==> self@[r as int].id == id@,
    {
        let mut i: usize = 0;
        while i < self.windows.len()
            invariant
                i <= self.windows.len(),
                forall|j: int| 0 <= j < i ==> (#[trigger] self@[j]).id != id@,
            decreases self.windows.len() - i,
        {
            if self.windows[i].id.same(id) {
                assert(self@[i as int].id == id@);
                proof {
                    lemma_position_of(self@, id@, i as int);
                }
                return i;
            }
            assert(self@[i as int].id != id@);
            i = i + 1;
        }
        proof {
            lemma_position_of(self@, id@, i as int);
        }
        i
    }

    /// The window with the name.
    pub fn get(&self, id: &WindowId) -> (r: Option<&TrackedWindow<H, S, P>>)
        ensures
            r is Some <==> position_of(self@, id@) < self@.len(),
            r matches Some(w) ==> w@ == self@[position_of(self@, id@) as int] && w@.id == id@,
    {
        let i: usize = self.index_of(id);
        if i < self.windows.len() {
            Some(&self.windows[i])
        } else {
            None
        }
    }

    /// The largest stamp of the windows that show something.
    fn largest_stamp(&self) -> (r: u64)
        ensures
            r == last_stamp(self@),
    {
        let mut largest: u64 = 0;
        let mut i: usize = 0;
        while i < self.windows.len()
            invariant
                i <= self.windows.len(),
                largest == last_stamp(self@.take(i as int)),
            decreases self.windows.len() - i,
        {
            assert(self@.take(i as int + 1).drop_last() =~= self@.take(i as int));
            assert(self@.take(i as int + 1).last() == self.windows@[i as int]@);
            if self.windows[i].mapped && self.windows[i].stamp > largest {
                largest = self.windows[i].stamp;
            }
            i = i + 1;
        }
        assert(self@.take(i as int) =~= self@);
        largest
    }

    /// Gives a window the stamp that it is mapped with, should it be mapped now.
    fn hand_out(&mut self, at: usize) -> (r: &mut TrackedWindow<H, S, P>)
        requires
            at < old(self)@.len(),
        ensures
            r@ == handed_out(old(self)@, at as int),
            final(self)@ == old(self)@.update(at as int, final(r)@),
            final(self).gutter() == old(self).gutter(),
            final(self).placed() == old(self).placed(),
            final(self).edge() == old(self).edge(),
            old(self).laid_out() && final(r)@.rect == old(self)@[at as int].rect
                ==> final(self).laid_out(),
    {
        let largest: u64 = self.largest_stamp();
        let ghost before = self.windows@;
        let w = &mut self.windows[at];
        if !w.mapped {
            w.stamp = if largest < u64::MAX {
                largest + 1
            } else {
                u64::MAX
            };
        }
        assert forall|new: TrackedWindow<H, S, P>|
            #[trigger] window_views(before.update(at as int, new)) == window_views(before).update(
                at as int,
                new@,
            ) by {
            assert(window_views(before.update(at as int, new)) =~= window_views(before).update(
                at as int,
                new@,
            ));
        }
        w
    }

    /// The window with the name, to be changed.
    pub fn get_mut(&mut self, id: &WindowId) -> (r: Option<&mut TrackedWindow<H, S, P>>)
        ensures
            r is Some <==> position_of(old(self)@, id@) < old(self)@.len(),
            r matches Some(w) ==> {
                let at = position_of(old(self)@, id@) as int;
                &&& w@ == handed_out(old(self)@, at)
                &&& final(self)@ == old(self)@.update(at, final(w)@)
                &&& final(self).gutter() == old(self).gutter()
                &&& final(self).placed() == old(self).placed()
                &&& final(self).edge() == old(self).edge()
                &&& old(self).laid_out() && final(w)@.rect == w@.rect ==> final(self).laid_out()
            },
            r is None ==> *final(self) == *old(self),
    {
        let i: usize = self.index_of(id);
        if i < self.windows.len() {
            Some(self.hand_out(i))
        } else {
            None
        }
    }

    fn index_where<F: Fn(&H) -> bool>(&self, predicate: &F) -> (r: Option<usize>)
        requires
            forall|h: &H| call_requires(*predicate, (h,)),
        ensures
            r matches Some(at) ==> first_match(self@, *predicate, at as int),
            r is None ==> no_match(self@, *predicate),
    {
        let mut i: usize = 0;
        while i < self.windows.len()
            invariant
                i <= self.windows.len(),
                forall|h: &H| call_requires(*predicate, (h,)),
                forall|j: int|
                    0 <= j < i ==> call_ensures(
                        *predicate,
                        (&(#[trigger] self@[j]).handle,),
                        false,
                    ),
            decreases self.windows.len() - i,
        {
            if predicate(&self.windows[i].handle) {
                assert(self@[i as int].handle == self.windows@[i as int].handle);
                return Some(i);
            }
            assert(self@[i as int].handle == self.windows@[i as int].handle);
            i = i + 1;
        }
        None
    }

    /// The first window whose handle the predicate answers with yes.
    pub fn find<F: Fn(&H) -> bool>(&self, predicate: F) -> (r: Option<&TrackedWindow<H, S, P>>)
        requires
            forall|h: &H| call_requires(predicate, (h,)),
        ensures
            r matches Some(w) ==> exists|at: int|
                #[trigger] first_match(self@, predicate, at) && w@ == self@[at],
            r is None ==> no_match(self@, predicate),
    {
        match self.index_where(&predicate) {
            Some(i) => {
                assert(first_match(self@, predicate, i as int));
                Some(&self.windows[i])
            },
            None => None,
        }
    }

    /// The first window whose handle the predicate answers with yes, to be changed.
    pub fn find_mut<F: Fn(&H) -> bool>(&mut self, predicate: F) -> (r: Option<
        &mut TrackedWindow<H, S, P>,
    >)
        requires
            forall|h: &H| call_requires(predicate, (h,)),
        ensures
            r matches Some(w) ==> exists|at: int|
                {
                    &&& #[trigger] first_match(old(self)@, predicate, at)
                    &&& w@ == handed_out(old(self)@, at)
                    &&& final(self)@ == old(self)@.update(at, final(w)@)
                    &&& final(self).gutter() == old(self).gutter()
                    &&& final(self).placed() == old(self).placed()
                    &&& final(self).edge() == old(self).edge()
                    &&& old(self).laid_out() && final(w)@.rect == w@.rect
                        ==> final(self).laid_out()
                },
            r is None ==> *final(self) == *old(self) && no_match(old(self)@, predicate),
    {
        match self.index_where(&predicate) {
            Some(i) => {
                assert(first_match(self@, predicate, i as int));
                Some(self.hand_out(i))
            },
            None => None,
        }
    }

    /// Forgets the first window whose handle the predicate answers with yes. Its place
    /// is not given away again.
    pub fn remove<F: Fn(&H) -> bool>(&mut self, predicate: F) -> (r: Option<
        TrackedWindow<H, S, P>,
    >)
        requires
            forall|h: &H| call_requires(predicate, (h,)),
        ensures
            final(self).gutter() == old(self).gutter(),
            final(self).placed() == old(self).placed(),
            final(self).edge() == old(self).edge(),
            old(self).laid_out() ==> final(self).laid_out(),
            r matches Some(w) ==> exists|at: int|
                #[trigger] first_match(old(self)@, predicate, at) && w@ == old(self)@[at]
                    && final(self)@ == old(self)@.remove(at),
            r is None ==> final(self)@ == old(self)@ && no_match(old(self)@, predicate),
    {
        match self.index_where(&predicate) {
            Some(i) => {
                assert(first_match(self@, predicate, i as int));
                let gone = self.windows.remove(i);
                assert(self@ =~= old(self)@.remove(i as int));
                proof {
                    if old(self).laid_out() {
                        law_gone_window_leaves_the_others(*old(self), *self, i as int);
                    }
                }
                Some(gone)
            },
            None => None,
        }
    }

    /// The window that a point falls into: the only one.
    pub fn window_at(&self, point: AtlasPoint) -> (r: Option<&TrackedWindow<H, S, P>>)
        ensures
            self.laid_out() && self.gutter() >= 0 ==> forall|i: int|
                0 <= i < self@.len() && (#[trigger] self@[i]).rect.holds(
                    point.x as int,
                    point.y as int,
                ) ==> i == position_at(self@, point.x as int, point.y as int),
            r is Some <==> position_at(self@, point.x as int, point.y as int) < self@.len(),
            r matches Some(w) ==> w@ == self@[position_at(
                self@,
                point.x as int,
                point.y as int,
            ) as int] && w@.rect.holds(point.x as int, point.y as int),
    {
        let mut i: usize = 0;
        while i < self.windows.len()
            invariant
                i <= self.windows.len(),
                forall|j: int|
                    0 <= j < i ==> !(#[trigger] self@[j]).rect.holds(
                        point.x as int,
                        point.y as int,
                    ),
            decreases self.windows.len() - i,
        {
            let w = &self.windows[i];
            assert(self@[i as int] == w@);
            if w.rect.contains(point) {
                proof {
                    lemma_position_at(self@, point.x as int, point.y as int, i as int);
                    if self.laid_out() && self.gutter() >= 0 {
                        law_a_point_names_one_window(*self, point.x as int, point.y as int);
                    }
                }
                return Some(w);
            }
            i = i + 1;
        }
        proof {
            lemma_position_at(self@, point.x as int, point.y as int, i as int);
        }
        None
    }

    /// The window that a point falls into, and the pixel of it that the point is at.
    pub fn hit(&self, point: AtlasPoint) -> (r: Option<(WindowId, PixelPoint)>)
        ensures
            ({
                let at = position_at(self@, point.x as int, point.y as int);
                if at < self@.len() {
                    let w = self@[at as int];
                    match r {
                        Some((id, local)) => {
                            &&& id@ == w.id
                            &&& local.x == point.x - w.rect.x
                            &&& local.y == point.y - w.rect.y
                            &&& 0 <= local.x < w.rect.width_px
                            &&& 0 <= local.y < w.rect.height_px
                        },
                        None => false,
                    }
                } else {
                    r is None
                }
            }),
    {
        match self.window_at(point) {
            Some(w) => Some((w.id().clone(), local_pixel_of(w.rect(), point))),
            None => None,
        }
    }

    /// The window that should have the keyboard: the one that was mapped last.
    pub fn focus_candidate(&self) -> (r: Option<&TrackedWindow<H, S, P>>)
        ensures
            r matches Some(w) ==> exists|at: int|
                #[trigger] mapped_last(self@, at) && w@ == self@[at],
            r is None <==> forall|j: int| 0 <= j < self@.len() ==> !(#[trigger] self@[j]).mapped,
    {
        let mut best: Option<usize> = None;
        let mut i: usize = 0;
        while i < self.windows.len()
            invariant
                i <= self.windows.len(),
                match best {
                    Some(b) => b < i && mapped_last(self@.take(i as int), b as int),
                    None => forall|j: int| 0 <= j < i ==> !(#[trigger] self@[j]).mapped,
                },
            decreases self.windows.len() - i,
        {
            let ghost seen = self@.take(i as int);
            let ghost more = self@.take(i as int + 1);
            assert(self@[i as int] == self.windows@[i as int]@);
            assert forall|j: int| 0 <= j < i implies #[trigger] more[j] == seen[j] by {}
            let later = self.windows[i].mapped && match best {
                Some(b) => self.windows[b].stamp <= self.windows[i].stamp,
                None => true,
            };
            proof {
                if best is Some {
                    let b = best->0 as int;
                    assert(self@[b] == self.windows@[b]@ && seen[b] == self@[b]);
                }
            }
            proof {
                let top = if later {
                    i as int
                } else {
                    best->0 as int
                };
                if later || best is Some {
                    assert forall|j: int|
                        0 <= j < more.len() && (#[trigger] more[j]).mapped implies more[j].stamp
                        < more[top].stamp || (more[j].stamp == more[top].stamp && j <= top) by {
                        if j < i {
                            assert(more[j] == seen[j] && seen[j] == self@[j]);
                        }
                    }
                    assert(mapped_last(more, top));
                }
            }
            if later {
                best = Some(i);
            }
            i = i + 1;
        }
        assert(self@.take(i as int) =~= self@);
        match best {
            Some(b) => {
                assert(mapped_last(self@, b as int));
                assert(self@[b as int].mapped);
                Some(&self.windows[b])
            },
            None => None,
        }
    }

    /// How many windows show something.
    pub fn mapped(&self) -> (r: usize)
        ensures
            r == mapped_count(self@),
    {
        let mut count: usize = 0;
        let mut i: usize = 0;
        while i < self.windows.len()
            invariant
                i <= self.windows.len(),
                count <= i,
                count == mapped_count(self@.take(i as int)),
            decreases self.windows.len() - i,
        {
            assert(self@.take(i as int + 1).drop_last() =~= self@.take(i as int));
            assert(self@.take(i as int + 1).last() == self.windows@[i as int]@);
            if self.windows[i].mapped {
                count = count + 1;
            }
            i = i + 1;
        }
        assert(self@.take(i as int) =~= self@);
        count
    }
}

proof fn lemma_new_place_is_clear<H, S, P>(
    before: &WindowRegistry<H, S, P>,
    after: &WindowRegistry<H, S, P>,
)
    requires
        before.laid_out(),
        after.gutter() == before.gutter(),
        after@.len() == before@.len() + 1,
        after@.drop_last() == before@,
        after@.last().rect.x == before.next_place(after@.last().rect.width_px as int),
        after.edge() == next_edge(
            before.edge(),
            after@.last().rect.x as int,
            after@.last().rect.width_px as int,
        ),
    ensures
        after.laid_out(),
{
    let n = before@.len() as int;
    let gutter = before.gutter() as int;
    law_new_window_keeps_its_distance(*before, after@.last().rect.width_px as int);
    assert forall|i: int| 0 <= i < n implies #[trigger] after@[i] == before@[i] by {
        assert(after@.drop_last()[i] == after@[i]);
    }
    assert forall|i: int, j: int|
        0 <= i < after@.len() && 0 <= j < after@.len() && i != j implies kept_apart(
        gutter,
        #[trigger] after@[i],
        #[trigger] after@[j],
    ) by {
        if i < n && j < n {
            assert(kept_apart(gutter, before@[i], before@[j]));
        } else if i < n {
            assert(after@[i] == before@[i] && after@[j] == after@.last());
        } else {
            assert(after@[j] == before@[j] && after@[i] == after@.last());
        }
    }
    assert forall|i: int| 0 <= i < after@.len() implies (#[trigger] after@[i]).rect.x
        + after@[i].rect.width_px <= after.edge() by {
        if i < n {
            assert(before@[i].rect.x + before@[i].rect.width_px <= before.edge());
        }
    }
}

/// Between any two windows there is room for a gutter, and so no two windows overlap on the
/// atlas, whatever their sizes.
pub proof fn law_windows_do_not_overlap<H, S, P>(
    registry: WindowRegistry<H, S, P>,
    i: int,
    j: int,
)
    requires
        registry.laid_out(),
        registry.gutter() >= 0,
        0 <= i < registry@.len(),
        0 <= j < registry@.len(),
        i != j,
    ensures
        kept_apart(registry.gutter() as int, registry@[i], registry@[j]),
        !registry@[i].rect.meets(registry@[j].rect),
{
}

/// A point of the atlas falls into one window at most.
pub proof fn law_a_point_names_one_window<H, S, P>(
    registry: WindowRegistry<H, S, P>,
    x: int,
    y: int,
)
    requires
        registry.laid_out(),
        registry.gutter() >= 0,
    ensures
        forall|i: int, j: int|
            0 <= i < registry@.len() && 0 <= j < registry@.len() && (
            #[trigger] registry@[i]).rect.holds(x, y) && (#[trigger] registry@[j]).rect.holds(x, y)
                ==> i == j,
{
    assert forall|i: int, j: int|
        0 <= i < registry@.len() && 0 <= j < registry@.len() && (
        #[trigger] registry@[i]).rect.holds(x, y) && (#[trigger] registry@[j]).rect.holds(
            x,
            y,
        ) implies i == j by {
        if i != j {
            law_windows_do_not_overlap(registry, i, j);
            law_apart_rectangles_share_no_point(registry@[i].rect, registry@[j].rect, x, y);
        }
    }
}

/// The place of a window that comes leaves room for a gutter to every window that is there.
pub proof fn law_new_window_keeps_its_distance<H, S, P>(
    registry: WindowRegistry<H, S, P>,
    width_px: int,
)
    requires
        registry.laid_out(),
    ensures
        is_clear(registry@, registry.gutter() as int, registry.next_place(width_px), width_px),
{
    let gutter = registry.gutter() as int;
    let left = registry.next_place(width_px);
    assert forall|i: int| 0 <= i < registry@.len() implies stand_apart(
        gutter,
        (#[trigger] registry@[i]).rect.x as int,
        registry@[i].rect.width_px as int,
        left,
        width_px,
    ) by {
        assert(registry@[i].rect.x + registry@[i].rect.width_px <= registry.edge());
    }
}

/// A window that goes leaves the others where they are, and as far apart as they were.
pub proof fn law_gone_window_leaves_the_others<H, S, P>(
    before: WindowRegistry<H, S, P>,
    after: WindowRegistry<H, S, P>,
    gone: int,
)
    requires
        before.laid_out(),
        0 <= gone < before@.len(),
        after@ == before@.remove(gone),
        after.gutter() == before.gutter(),
        after.edge() == before.edge(),
    ensures
        after.laid_out(),
        forall|i: int|
            0 <= i < after@.len() ==> #[trigger] after@[i] == before@[if i < gone {
                i
            } else {
                i + 1
            }],
{
    assert forall|i: int| 0 <= i < after@.len() implies #[trigger] after@[i] == before@[if i < gone {
        i
    } else {
        i + 1
    }] by {}
    assert forall|i: int, j: int|
        0 <= i < after@.len() && 0 <= j < after@.len() && i != j implies kept_apart(
        after.gutter() as int,
        #[trigger] after@[i],
        #[trigger] after@[j],
    ) by {
        let k = if i < gone {
            i
        } else {
            i + 1
        };
        let l = if j < gone {
            j
        } else {
            j + 1
        };
        assert(kept_apart(before.gutter() as int, before@[k], before@[l]));
    }
}

/// Windows of one width stand in line at equal distances, whatever windows of theirs are
/// gone: where every window stands at an earlier place in line, the next one gets its own.
pub proof fn law_windows_of_one_size_stand_in_line<H, S, P>(
    registry: WindowRegistry<H, S, P>,
    numbers: Seq<int>,
    width_px: int,
)
    requires
        width_px + registry.gutter() >= 0,
        numbers.len() == registry@.len(),
        forall|i: int|
            0 <= i < numbers.len() ==> {
                &&& 0 <= #[trigger] numbers[i] < registry.placed()
                &&& registry@[i].rect.width_px == width_px
                &&& registry@[i].rect.x == place_in_line(
                    registry.gutter() as int,
                    numbers[i],
                    width_px,
                )
            },
    ensures
        registry.next_place(width_px) == place_in_line(
            registry.gutter() as int,
            registry.placed() as int,
            width_px,
        ),
{
    let gutter = registry.gutter() as int;
    let placed = registry.placed() as int;
    let pitch = width_px + gutter;
    assert forall|i: int| 0 <= i < registry@.len() implies stand_apart(
        gutter,
        (#[trigger] registry@[i]).rect.x as int,
        registry@[i].rect.width_px as int,
        place_in_line(gutter, placed, width_px),
        width_px,
    ) by {
        let n = numbers[i];
        assert(n * pitch + pitch <= placed * pitch) by (nonlinear_arith)
            requires
                n + 1 <= placed,
                pitch >= 0,
        ;
    }
}

/// A window that is mapped now gets the keyboard, before every window that was mapped
/// earlier, wherever it stands among them.
pub proof fn law_focus_goes_to_the_last_mapped<H, S, P>(
    windows: Seq<WindowView<H, S, P>>,
    at: int,
)
    requires
        0 <= at < windows.len(),
        !windows[at].mapped,
        last_stamp(windows) < u64::MAX,
    ensures
        ({
            let after = windows.update(
                at,
                WindowView { mapped: true, ..handed_out(windows, at) },
            );
            &&& mapped_last(after, at)
            &&& forall|other: int| #[trigger] mapped_last(after, other) ==> other == at
            &&& last_stamp(windows) < after[at].stamp
        }),
{
    let after = windows.update(at, WindowView { mapped: true, ..handed_out(windows, at) });
    assert forall|j: int| 0 <= j < after.len() && (#[trigger] after[j]).mapped implies after[j].stamp
        < after[at].stamp || (after[j].stamp == after[at].stamp && j <= at) by {
        if j != at {
            assert(after[j] == windows[j]);
            lemma_no_stamp_is_beyond_the_last(windows, j);
        }
    }
    assert(mapped_last(after, at));
    assert forall|other: int| #[trigger] mapped_last(after, other) implies other == at by {
        if other != at {
            assert(after[other] == windows[other]);
            lemma_no_stamp_is_beyond_the_last(windows, other);
            assert(after[at].mapped);
        }
    }
}

proof fn lemma_no_stamp_is_beyond_the_last<H, S, P>(windows: Seq<WindowView<H, S, P>>, j: int)
    requires
        0 <= j < windows.len(),
        windows[j].mapped,
    ensures
        windows[j].stamp <= last_stamp(windows),
    decreases windows.len(),
{
    if j < windows.len() - 1 {
        lemma_no_stamp_is_beyond_the_last(windows.drop_last(), j);
    }
}

/// A window that submits again keeps its turn: handing it out changes nothing of it.
pub proof fn law_mapped_window_keeps_its_turn<H, S, P>(
    windows: Seq<WindowView<H, S, P>>,
    at: int,
)
    requires
        0 <= at < windows.len(),
        windows[at].mapped,
    ensures
        windows.update(at, WindowView { mapped: true, ..handed_out(windows, at) }) == windows,
{
    assert(windows.update(at, WindowView { mapped: true, ..handed_out(windows, at) }) =~= windows);
}

} // verus!
