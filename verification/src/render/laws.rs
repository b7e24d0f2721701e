//! What is drawn, copied, counted and compared, told by what goes in and comes out.

use vstd::prelude::*;

use crate::error::Error;
use crate::frame::{Frame, FrameOrigin};
use crate::render::calls::{draw_calls, CallRun, DeviceCall, DevicePart};
use crate::render::facts::{route_count, RenderFacts, TextureRoute};
use crate::render::probe::{
    assert_route, black_at, check_copied_pixels, check_shared_pixels, check_shown,
    coloured_before, colours_before, count_mismatches, differing_before, distinct_pixels,
    gradient_frame, gradient_pixels, inspect_submitted_image, law_no_mismatch_means_the_same_colours,
    mismatches, ppm_bytes, ppm_head, probe_step, shift_one_channel, wants_capture, Calibration,
    ProbeStep, SubmittedImageReport,
};
use crate::render::renderer::{
    check_max_surfaces, check_surface_count, law_every_surface_is_drawn, plan_view,
    spirv_words, view_commands, DrawCommand, ViewPlan,
};
use crate::render::texture::{
    read_back_size, staging_region, staging_size, texture_release_order, CopyRegion,
    TexturePart,
};
use crate::text::decimal;
use crate::time::UtcTimestamp;

verus! {

/// A view is drawn surface by surface: the pass begins, its frame and program are set, and then
/// each surface's texture is taken, its place handed over in sixty-four bytes and its four
/// corners drawn, in order; then the pass ends. The routes are those of the surfaces. More
/// surfaces than can be drawn are refused, and no surface at all is not.
pub proof fn law_view_is_drawn_surface_by_surface(
    surfaces: &[TextureRoute],
    max_surfaces: u32,
    r: Result<ViewPlan, Error>,
    surface: int,
)
    requires
        call_ensures(plan_view, (surfaces, max_surfaces), r),
        surfaces@.len() <= usize::MAX,
    ensures
        r is Err <==> surfaces@.len() > max_surfaces,
        r matches Ok(plan) ==> {
            let done = plan.commands@;
            &&& plan.routes@ == surfaces@
            &&& done.len() == 5 + 3 * surfaces@.len()
            &&& done[0] == DrawCommand::BeginPass
            &&& done[1] == DrawCommand::SetViewport
            &&& done[2] == DrawCommand::SetScissor
            &&& done[3] == DrawCommand::BindPipeline
            &&& done.last() == DrawCommand::EndPass
            &&& 0 <= surface < surfaces@.len() ==> {
                &&& done[4 + 3 * surface] == (DrawCommand::BindSurface {
                    surface: surface as usize,
                })
                &&& done[5 + 3 * surface] == (DrawCommand::PushMatrix {
                    surface: surface as usize,
                    bytes: 64,
                })
                &&& done[6 + 3 * surface] == (DrawCommand::DrawQuad {
                    surface: surface as usize,
                    vertices: 4,
                })
            }
        },
{
    let count = surfaces@.len() as int;
    if count > 0 {
        let which = if 0 <= surface < count {
            surface
        } else {
            0
        };
        law_every_surface_is_drawn(count, which);
        let one = view_commands(count).subrange(4 + 3 * which, 7 + 3 * which);
        assert(one[0] == view_commands(count)[4 + 3 * which]);
        assert(one[1] == view_commands(count)[5 + 3 * which]);
        assert(one[2] == view_commands(count)[6 + 3 * which]);
    }
}

/// A renderer draws at least one surface, and a frame no more than it was made for.
pub proof fn law_surfaces_are_limited(
    submitted: usize,
    max_surfaces: u32,
    made: Result<(), Error>,
    drawn: Result<(), Error>,
)
    requires
        call_ensures(check_max_surfaces, (max_surfaces,), made),
        call_ensures(check_surface_count, (submitted, max_surfaces), drawn),
    ensures
        made is Err <==> max_surfaces == 0,
        drawn is Err <==> submitted > max_surfaces,
{
}

/// The words of a program are its bytes, four to a word and the lowest first; bytes that make
/// no whole number of words are refused.
pub proof fn law_words_are_the_bytes(bytes: &[u8], r: Result<Vec<u32>, Error>, i: int)
    requires
        call_ensures(spirv_words, (bytes,), r),
    ensures
        r is Ok <==> bytes@.len() % 4 == 0,
        r matches Ok(words) ==> words@.len() * 4 == bytes@.len() && (0 <= i < words@.len() ==> {
            &&& words@[i] % 0x100 == bytes@[4 * i]
            &&& words@[i] / 0x100 % 0x100 == bytes@[4 * i + 1]
            &&& words@[i] / 0x1_0000 % 0x100 == bytes@[4 * i + 2]
            &&& words@[i] / 0x100_0000 == bytes@[4 * i + 3]
        }),
{
    if r is Ok && 0 <= i < r->Ok_0@.len() {
        let word = r->Ok_0@[i];
        assert(word == crate::render::renderer::word_at(bytes@, i));
    }
}

/// A frame is copied whole: as many bytes as its rows hold, rows of as many pixels as fit into
/// its stride, and as many pixels as it has.
pub proof fn law_frame_is_copied_whole(frame: Frame, region: CopyRegion, size: u64)
    requires
        call_ensures(staging_region, (&frame,), region),
        call_ensures(staging_size, (&frame,), size),
    ensures
        region.width == frame@.width_px,
        region.height == frame@.height_px,
        region.image_height == frame@.height_px,
        region.row_length * 4 <= frame@.stride_bytes < region.row_length * 4 + 4,
        size == frame@.stride_bytes * frame@.height_px,
        size == frame@.pixels.len(),
{
}

/// An image of four bytes to a pixel is read back with four bytes for every pixel, and no other
/// image is.
pub proof fn law_four_bytes_are_read_back(
    format: i32,
    width: u32,
    height: u32,
    r: Result<u64, Error>,
)
    requires
        width * height * 4 <= u64::MAX,
        call_ensures(read_back_size, (format, width, height), r),
    ensures
        r is Ok <==> format == 37 || format == 43 || format == 44 || format == 50,
        r matches Ok(n) ==> n == 4 * (width * height),
{
}

/// A texture gives back its sampler and its view, and its image and memory after them where
/// they are its own: those of a shared buffer are not.
pub proof fn law_texture_gives_back_what_is_its_own(route: TextureRoute, r: Vec<TexturePart>)
    requires
        call_ensures(texture_release_order, (route,), r),
    ensures
        r@.len() >= 2,
        r@[0] == TexturePart::Sampler,
        r@[1] == TexturePart::View,
        route is Dmabuf ==> r@.len() == 2,
        route is Shm ==> r@.len() == 4 && r@[2] == TexturePart::Image && r@[3]
            == TexturePart::Memory,
{
}

proof fn lemma_routes_counted(routes: Seq<TextureRoute>, route: TextureRoute)
    ensures
        route_count(routes, route) == routes.filter(|r: TextureRoute| r == route).len(),
    decreases routes.len(),
{
    reveal(Seq::filter);
    if routes.len() > 0 {
        lemma_routes_counted(routes.drop_last(), route);
    }
}

/// The ledger counts what was drawn: a frame, one black clear for each view, and each surface
/// once for each view, by the route that its texture came; a frame without surfaces is counted
/// apart from those with some.
pub proof fn law_ledger_counts_what_was_drawn(
    facts: &mut RenderFacts,
    surfaces: &[TextureRoute],
    views: usize,
)
    requires
        facts.has_room(surfaces@, views as int),
        call_ensures(RenderFacts::record_submit, (facts, surfaces, views), ()),
    ensures
        final(facts).frames_submitted == old(facts).frames_submitted + 1,
        surfaces@.len() == 0 ==> final(facts).frames_with_surface == old(facts).frames_with_surface,
        surfaces@.len() > 0 ==> final(facts).frames_with_surface == old(facts).frames_with_surface
            + 1,
        final(facts).black_clears == old(facts).black_clears + views,
        final(facts).surface_draws - old(facts).surface_draws == surfaces@.len() * views,
        final(facts).dmabuf_draws - old(facts).dmabuf_draws == surfaces@.filter(
            |r: TextureRoute| r == TextureRoute::Dmabuf,
        ).len() * views,
        final(facts).shm_draws - old(facts).shm_draws == surfaces@.filter(
            |r: TextureRoute| r == TextureRoute::Shm,
        ).len() * views,
        final(facts).frames_skipped == old(facts).frames_skipped,
{
    lemma_routes_counted(surfaces@, TextureRoute::Dmabuf);
    lemma_routes_counted(surfaces@, TextureRoute::Shm);
}

/// A skipped frame is counted as that and nothing else.
pub proof fn law_skipped_frame_is_counted_as_skipped(facts: &mut RenderFacts)
    requires
        facts.frames_skipped < usize::MAX,
        call_ensures(RenderFacts::record_skip, (facts,), ()),
    ensures
        final(facts).frames_skipped == old(facts).frames_skipped + 1,
        final(facts).frames_submitted == old(facts).frames_submitted,
        final(facts).black_clears == old(facts).black_clears,
        final(facts).surface_draws == old(facts).surface_draws,
{
}

/// The shared picture is a gradient: from one column to the next its blue grows by four and its
/// red by three, from one row to the next its green by five and its red by three, all in
/// circles of two hundred and fifty-six; its first pixel is black and all of it is opaque. It is
/// made up, no capture.
pub proof fn law_shared_picture_is_a_gradient(
    at: UtcTimestamp,
    r: Result<Frame, Error>,
    x: int,
    y: int,
)
    requires
        call_ensures(gradient_frame, (at,), r),
        0 <= x < 63,
        0 <= y < 47,
    ensures
        r is Ok,
        ({
            let f = r->Ok_0@;
            let here = 256 * y + 4 * x;
            let right = here + 4;
            let below = here + 256;
            &&& f.origin == FrameOrigin::TestDouble
            &&& f.width_px == 64 && f.height_px == 48 && f.stride_bytes == 256
            &&& f.captured_at == at
            &&& f.pixels.len() == 64 * 48 * 4
            &&& f.pixels[0] == 0 && f.pixels[1] == 0 && f.pixels[2] == 0
            &&& f.pixels[here + 3] == 255
            &&& f.pixels[right] == (f.pixels[here] + 4) % 256
            &&& f.pixels[right + 1] == f.pixels[here + 1]
            &&& f.pixels[right + 2] == (f.pixels[here + 2] + 3) % 256
            &&& f.pixels[below] == f.pixels[here]
            &&& f.pixels[below + 1] == (f.pixels[here + 1] + 5) % 256
            &&& f.pixels[below + 2] == (f.pixels[here + 2] + 3) % 256
        }),
{
    lemma_gradient_pixel(0, 0);
    lemma_gradient_pixel(x, y);
    lemma_gradient_pixel(x + 1, y);
    lemma_gradient_pixel(x, y + 1);
    assert(r->Ok_0@.pixels == gradient_pixels());
    let here = 256 * y + 4 * x;
    assert(256 * y + 4 * (x + 1) == here + 4);
    assert(256 * (y + 1) + 4 * x == here + 256);
    lemma_circles(x, y);
}

proof fn lemma_gradient_pixel(x: int, y: int)
    requires
        0 <= x < 64,
        0 <= y < 48,
    ensures
        ({
            let here = 256 * y + 4 * x;
            &&& 0 <= here && here + 3 < gradient_pixels().len()
            &&& gradient_pixels()[here] == (x * 4 % 256) as u8
            &&& gradient_pixels()[here + 1] == (y * 5 % 256) as u8
            &&& gradient_pixels()[here + 2] == ((x + y) * 3 % 256) as u8
            &&& gradient_pixels()[here + 3] == 255
        }),
{
    let here = 256 * y + 4 * x;
    assert(here / 4 == 64 * y + x && (here + 1) / 4 == 64 * y + x);
    assert((here + 2) / 4 == 64 * y + x && (here + 3) / 4 == 64 * y + x);
    assert((64 * y + x) % 64 == x && (64 * y + x) / 64 == y);
}

proof fn lemma_circles(x: int, y: int)
    requires
        0 <= x < 64,
        0 <= y < 48,
    ensures
        (x + 1) * 4 % 256 == (x * 4 % 256 + 4) % 256,
        (y + 1) * 5 % 256 == (y * 5 % 256 + 5) % 256,
        (x + 1 + y) * 3 % 256 == ((x + y) * 3 % 256 + 3) % 256,
        (x + (y + 1)) * 3 % 256 == ((x + y) * 3 % 256 + 3) % 256,
{
    vstd::arithmetic::div_mod::lemma_add_mod_noop(x * 4, 4, 256);
    vstd::arithmetic::div_mod::lemma_add_mod_noop(y * 5, 5, 256);
    vstd::arithmetic::div_mod::lemma_add_mod_noop((x + y) * 3, 3, 256);
    assert((x + 1) * 4 == x * 4 + 4);
    assert((y + 1) * 5 == y * 5 + 5);
    assert((x + 1 + y) * 3 == (x + y) * 3 + 3);
    assert((x + (y + 1)) * 3 == (x + y) * 3 + 3);
}

proof fn lemma_differing(a: Seq<u8>, b: Seq<u8>, count: int)
    requires
        0 <= count,
    ensures
        differing_before(a, b, count) == Seq::new(count as nat, |p: int| p).filter(
            |p: int| a[4 * p] != b[4 * p] || a[4 * p + 1] != b[4 * p + 1] || a[4 * p + 2] != b[4 * p
                + 2],
        ).len(),
    decreases count,
{
    reveal(Seq::filter);
    let all = Seq::new(count as nat, |p: int| p);
    if count > 0 {
        lemma_differing(a, b, count - 1);
        assert(all.drop_last() =~= Seq::new((count - 1) as nat, |p: int| p));
    }
}

/// Pictures of one size are compared pixel by pixel, by their three colours: as many differ as
/// are counted. The check of what came back passes exactly where none does.
pub proof fn law_differing_pixels_are_counted(
    expected: &[u8],
    actual: &[u8],
    r: usize,
    shared: Result<(), Error>,
    copied: Result<(), Error>,
)
    requires
        call_ensures(count_mismatches, (expected, actual), r),
        call_ensures(check_shared_pixels, (expected, actual), shared),
        call_ensures(check_copied_pixels, (expected, actual), copied),
    ensures
        expected@.len() == actual@.len() ==> {
            let a = expected@;
            let b = actual@;
            r == Seq::new(a.len() / 4, |p: int| p).filter(
                |p: int| a[4 * p] != b[4 * p] || a[4 * p + 1] != b[4 * p + 1] || a[4 * p + 2]
                    != b[4 * p + 2],
            ).len()
        },
        expected@.len() > actual@.len() ==> r == expected@.len(),
        expected@.len() < actual@.len() ==> r == actual@.len(),
        shared is Ok <==> r == 0,
        copied is Ok <==> r == 0,
        expected@ == actual@ ==> r == 0,
{
    if expected@.len() == actual@.len() {
        lemma_differing(expected@, actual@, expected@.len() as int / 4);
    }
    law_no_mismatch_means_the_same_colours(expected@, actual@);
}

/// Moving the first colour on adds seventeen to it, in a circle, in every whole pixel, and
/// changes no other byte.
pub proof fn law_first_colour_is_moved_on(bytes: &[u8], r: Vec<u8>, i: int)
    requires
        call_ensures(shift_one_channel, (bytes,), r),
        0 <= i < bytes@.len(),
    ensures
        r@.len() == bytes@.len(),
        i % 4 != 0 || i + 4 > bytes@.len() ==> r@[i] == bytes@[i],
        i % 4 == 0 && i + 4 <= bytes@.len() ==> (r@[i] - bytes@[i]) % 256 == 17,
{
}

proof fn lemma_colours(bytes: Seq<u8>, count: int, blue: u8, green: u8, red: u8)
    requires
        0 <= count <= bytes.len() as int / 4,
    ensures
        colours_before(bytes, count).finite(),
        colours_before(bytes, count).contains(
            crate::render::probe::colour_number(blue, green, red),
        ) <==> exists|p: int|
            0 <= p < count && #[trigger] bytes[4 * p] == blue && bytes[4 * p + 1] == green
                && bytes[4 * p + 2] == red,
    decreases count,
{
    if count > 0 {
        lemma_colours(bytes, count - 1, blue, green, red);
        let q = count - 1;
        let here = crate::render::probe::colour_number(
            bytes[4 * q],
            bytes[4 * q + 1],
            bytes[4 * q + 2],
        );
        let wanted = crate::render::probe::colour_number(blue, green, red);
        if here == wanted {
            crate::render::probe::law_colours_have_their_own_numbers(
                (bytes[4 * q], bytes[4 * q + 1], bytes[4 * q + 2]),
                (blue, green, red),
            );
            assert(bytes[4 * q] == blue);
        }
        if exists|p: int|
            0 <= p < count && #[trigger] bytes[4 * p] == blue && bytes[4 * p + 1] == green
                && bytes[4 * p + 2] == red {
            let p = choose|p: int|
                0 <= p < count && #[trigger] bytes[4 * p] == blue && bytes[4 * p + 1] == green
                    && bytes[4 * p + 2] == red;
            if p < count - 1 {
                assert(bytes[4 * p] == blue);
            }
        }
    }
}

/// The colours of a picture are those of its whole pixels: as many as there are different
/// triples of blue, green and red.
pub proof fn law_colours_are_counted_once(bytes: &[u8], r: usize, blue: u8, green: u8, red: u8)
    requires
        call_ensures(distinct_pixels, (bytes,), r),
    ensures
        exists|colours: Set<u32>|
            {
                &&& colours.finite()
                &&& colours.len() == r
                &&& #[trigger] colours.contains((blue + 256 * green + 65536 * red) as u32)
                    <==> exists|p: int|
                    0 <= p < bytes@.len() as int / 4 && #[trigger] bytes@[4 * p] == blue
                        && bytes@[4 * p + 1] == green && bytes@[4 * p + 2] == red
            },
{
    let colours = colours_before(bytes@, bytes@.len() as int / 4);
    lemma_colours(bytes@, bytes@.len() as int / 4, blue, green, red);
    assert(colours.contains((blue + 256 * green + 65536 * red) as u32)
        == colours.contains(crate::render::probe::colour_number(blue, green, red)));
}

/// A comparison passes its trial exactly where what came back has two colours or more and a
/// picture that was moved on was seen to differ.
pub proof fn law_trial_needs_colours_and_a_difference(
    expected: &[u8],
    actual: &[u8],
    moved: Vec<u8>,
    against: usize,
    colours: usize,
    trial: Calibration,
    r: Result<(), Error>,
)
    requires
        call_ensures(Calibration::of, (expected, actual), trial),
        call_ensures(Calibration::check, (&trial,), r),
        call_ensures(shift_one_channel, (expected,), moved),
        call_ensures(distinct_pixels, (actual,), colours),
        against == mismatches(moved@, actual@),
    ensures
        r is Ok <==> colours >= 2 && against > 0,
        trial.distinct_pixels_read_back == colours,
        trial.mismatches_against_shifted == against,
{
}

/// A texture that came by another route than was asked for is told apart.
pub proof fn law_other_route_is_told(
    actual: TextureRoute,
    expected: TextureRoute,
    r: Result<(), Error>,
)
    requires
        call_ensures(assert_route, (actual, expected), r),
    ensures
        r is Err <==> (actual is Dmabuf && expected is Shm) || (actual is Shm && expected is Dmabuf),
{
}

proof fn lemma_coloured(bytes: Seq<u8>, count: int)
    requires
        0 <= count <= bytes.len() as int / 4,
    ensures
        coloured_before(bytes, count) == Seq::new(count as nat, |p: int| p).filter(
            |p: int| bytes[4 * p] != 0 || bytes[4 * p + 1] != 0 || bytes[4 * p + 2] != 0,
        ).len(),
    decreases count,
{
    reveal(Seq::filter);
    if count > 0 {
        lemma_coloured(bytes, count - 1);
        let all = Seq::new(count as nat, |p: int| p);
        assert(all.drop_last() =~= Seq::new((count - 1) as nat, |p: int| p));
        assert(black_at(bytes, 4 * (count - 1)) <==> bytes[4 * (count - 1)] == 0 && bytes[4 * (count
            - 1) + 1] == 0 && bytes[4 * (count - 1) + 2] == 0);
    }
}

/// Of a picture that was handed over, all pixels that are not black are counted, and of its
/// four corners those that are. It passes exactly where all four corners are black, some pixel
/// is not, and there are three colours or more.
pub proof fn law_picture_is_looked_at_whole(
    bytes: &[u8],
    width: u32,
    height: u32,
    seen: SubmittedImageReport,
    r: Result<(), Error>,
    colours: usize,
)
    requires
        width > 0,
        height > 0,
        bytes@.len() == width * 4 * height,
        width * 4 <= usize::MAX,
        width * 4 * height <= usize::MAX,
        call_ensures(inspect_submitted_image, (bytes, width, height), seen),
        call_ensures(SubmittedImageReport::check, (&seen,), r),
        call_ensures(distinct_pixels, (bytes,), colours),
    ensures
        ({
            let b = bytes@;
            let right = 4 * (width - 1);
            let bottom = (height - 1) * (width * 4);
            let coloured = Seq::new(b.len() / 4, |p: int| p).filter(
                |p: int| b[4 * p] != 0 || b[4 * p + 1] != 0 || b[4 * p + 2] != 0,
            ).len();
            let black = |i: int| b[i] == 0 && b[i + 1] == 0 && b[i + 2] == 0;
            &&& seen.total_pixels == width * height
            &&& seen.non_black_pixels == coloured
            &&& seen.distinct_colours == colours
            &&& seen.corner_is_black_count == 4 <==> black(0) && black(right) && black(bottom)
                && black(bottom + right)
            &&& r is Ok <==> black(0) && black(right) && black(bottom) && black(bottom + right)
                && coloured > 0 && colours >= 3
        }),
{
    let b = bytes@;
    lemma_coloured(b, b.len() as int / 4);
    let right = 4 * (width - 1);
    let bottom = (height - 1) * (width * 4);
    assert(bottom + right + 4 == b.len() && bottom >= 0) by (nonlinear_arith)
        requires
            right == 4 * (width - 1),
            bottom == (height - 1) * (width * 4),
            b.len() == width * 4 * height,
            width > 0,
            height > 0,
    ;
}

/// The picture is kept in the last of ninety frames, once. A turn ends where the runtime wants
/// to leave, or else where the session does not run; else a frame is shown.
pub proof fn law_turn_shows_a_frame_or_ends(
    exiting: bool,
    running: bool,
    index: usize,
    captured: bool,
    wanted: bool,
    r: ProbeStep,
)
    requires
        call_ensures(wants_capture, (index, captured), wanted),
        call_ensures(probe_step, (exiting, running, index, captured), r),
    ensures
        wanted <==> index + 1 == 90 && !captured,
        r is Exiting <==> exiting,
        r is Stopped <==> !exiting && !running,
        r matches ProbeStep::Show { capture } ==> capture == wanted && running && !exiting,
{
}

/// Something was shown exactly where frames were submitted and some of them had surfaces.
pub proof fn law_something_was_shown(
    submitted: usize,
    with_surface: usize,
    exiting: bool,
    r: Result<(), Error>,
)
    requires
        call_ensures(check_shown, (submitted, with_surface, exiting), r),
    ensures
        r is Err <==> submitted == 0 || with_surface == 0,
{
}

/// A picture file holds red, green and blue of every whole pixel, in order, after its head.
pub proof fn law_picture_file_holds_the_colours(
    bytes: &[u8],
    width: u32,
    height: u32,
    r: Vec<u8>,
    p: int,
)
    requires
        call_ensures(ppm_bytes, (bytes, width, height), r),
        0 <= p < bytes@.len() as int / 4,
    ensures
        ({
            let head = "P6\n"@ + decimal(width as nat) + " "@ + decimal(height as nat)
                + "\n255\n"@;
            let at = head.len() + 3 * p;
            &&& r@.len() == head.len() + bytes@.len() / 4 * 3
            &&& forall|i: int| 0 <= i < head.len() ==> #[trigger] r@[i] == head[i] as u8
            &&& r@[at] == bytes@[4 * p + 2]
            &&& r@[at + 1] == bytes@[4 * p + 1]
            &&& r@[at + 2] == bytes@[4 * p]
        }),
{
    let n = ppm_head(width, height).len();
    let i = 3 * p;
    assert(i / 3 == p && i % 3 == 0);
    assert((i + 1) / 3 == p && (i + 1) % 3 == 1);
    assert((i + 2) / 3 == p && (i + 2) % 3 == 2);
}

/// A procedure makes its calls one after the other: the next one is the first that was not made
/// yet; where it is granted it is done, and where it is refused nothing more is, and what was
/// granted stays to be given back.
pub proof fn law_calls_are_made_one_after_the_other(
    run: &mut CallRun,
    granted: bool,
    raw: i32,
    next: Option<DeviceCall>,
    r: Result<(), Error>,
)
    requires
        call_ensures(CallRun::next_call, (&*run,), next),
        next is Some,
        call_ensures(
            CallRun::answered::<()>,
            (
                run,
                if granted {
                    Ok::<(), i32>(())
                } else {
                    Err::<(), i32>(raw)
                },
            ),
            r,
        ),
    ensures
        granted ==> {
            &&& r is Ok
            &&& final(run).granted() == old(run).granted().push(next->0)
            &&& seq![next->0] + final(run).remaining() == old(run).remaining()
        },
        !granted ==> {
            &&& r is Err
            &&& final(run).granted() == old(run).granted()
            &&& final(run).remaining() == old(run).remaining()
        },
{
    if granted {
        assert(seq![next->0] + run.remaining().drop_first() =~= run.remaining());
    }
}

/// What a procedure acquired is given back last first: a part that a call acquired comes before
/// those of all calls before it, but for the buffer and the memory of a staging copy whose
/// pixels are staged. What was handed over is not given back.
pub proof fn law_last_acquired_is_given_back_first(
    run: &mut CallRun,
    r: Vec<DevicePart>,
    part: DevicePart,
)
    requires
        call_ensures(CallRun::give_back, (run,), r),
        run.granted().len() > 0,
        run.granted().last() != DeviceCall::MapStaging,
        run.granted().last().part() == Some(part),
    ensures
        r@.len() > 0,
        r@[0] == part,
        r@.skip(1) == crate::render::calls::parts_of(old(run).granted().drop_last()).reverse(),
        final(run).granted().len() == 0,
        final(run).remaining().len() == 0,
{
    let all = run.granted();
    let rest = crate::render::calls::parts_of(all.drop_last());
    assert(crate::render::calls::parts_of(all) == rest.push(part));
    assert(r@ == rest.push(part).reverse());
    assert(r@.skip(1) =~= rest.reverse());
}

/// Drawing a view waits for the one before it, draws, submits and waits for itself, in this
/// order; descriptors are taken exactly where there are surfaces.
pub proof fn law_drawing_waits_for_itself(surfaces: usize, r: Vec<DeviceCall>)
    requires
        call_ensures(draw_calls, (surfaces,), r),
    ensures
        r@[0] == DeviceCall::WaitForFence,
        r@[1] == DeviceCall::ResetFence,
        surfaces == 0 ==> r@.len() == 7,
        surfaces > 0 ==> r@.len() == 8 && r@[2] == DeviceCall::AllocateDescriptorSets,
        r@.skip(r@.len() - 5) == seq![
            DeviceCall::BeginCommands,
            DeviceCall::EndCommands,
            DeviceCall::SubmitDrawing,
            DeviceCall::WaitForDrawing,
            DeviceCall::ResetDescriptorPool,
        ],
{
    assert(r@.skip(r@.len() - 5) =~= seq![
        DeviceCall::BeginCommands,
        DeviceCall::EndCommands,
        DeviceCall::SubmitDrawing,
        DeviceCall::WaitForDrawing,
        DeviceCall::ResetDescriptorPool,
    ]);
}

} // verus!
