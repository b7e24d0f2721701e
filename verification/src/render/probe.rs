//! Measuring the drawing: pictures that are known, what came back of them, and what a
//! picture that was handed over must hold.

use std::collections::HashSet;

use vstd::prelude::*;

use crate::error::{plain_error, DetailView, Error, ErrorCode};
use crate::frame::{Frame, FrameOrigin, FrameView, PixelFormat};
use crate::id::TraceId;
use crate::json::{array_of, JsonFields, JsonValue, JsonView};
use crate::render::dmabuf::DrmModifier;
use crate::render::facts::TextureRoute;
use crate::text::{chars_of, decimal, push_decimal};
use crate::time::UtcTimestamp;

verus! {

/// The width of the picture that is shared.
pub const GRADIENT_WIDTH_PX: u32 = 64;

/// The height of the picture that is shared.
pub const GRADIENT_HEIGHT_PX: u32 = 48;

/// The width of the picture that is shown.
pub const TILED_WIDTH_PX: u32 = 256;

/// The height of the picture that is shown.
pub const TILED_HEIGHT_PX: u32 = 144;

/// How many frames are shown.
pub const PROBE_FRAMES: usize = 90;

/// A byte of the shared picture: blue grows to the right, green downwards, and red along
/// both.
pub open spec fn gradient_byte(x: int, y: int, channel: int) -> int {
    if channel == 0 {
        x * 4 % 256
    } else if channel == 1 {
        y * 5 % 256
    } else if channel == 2 {
        (x + y) * 3 % 256
    } else {
        255
    }
}

/// The bytes of the shared picture.
pub open spec fn gradient_pixels() -> Seq<u8> {
    Seq::new(12288, |i: int| gradient_byte(i / 4 % 64, i / 4 / 64, i % 4) as u8)
}

/// The picture that is shared. It is a test double, no capture.
pub fn gradient_frame(at: UtcTimestamp) -> (r: Result<Frame, Error>)
    ensures
        r is Ok,
        r->Ok_0@ == (FrameView {
            origin: FrameOrigin::TestDouble,
            format: PixelFormat::Xrgb8888,
            width_px: GRADIENT_WIDTH_PX,
            height_px: GRADIENT_HEIGHT_PX,
            stride_bytes: 256,
            captured_at: at,
            pixels: gradient_pixels(),
        }),
{
    let mut pixels: Vec<u8> = Vec::new();
    let mut p: u32 = 0;
    while p < 3072
        invariant
            p <= 3072,
            pixels@.len() == p * 4,
            forall|i: int|
                0 <= i < pixels@.len() ==> #[trigger] pixels@[i] == gradient_byte(
                    i / 4 % 64,
                    i / 4 / 64,
                    i % 4,
                ) as u8,
        decreases 3072 - p,
    {
        let x: u32 = p % 64;
        let y: u32 = p / 64;
        pixels.push((x * 4 % 256) as u8);
        pixels.push((y * 5 % 256) as u8);
        pixels.push(((x + y) * 3 % 256) as u8);
        pixels.push(255);
        p = p + 1;
    }
    assert(pixels@ =~= gradient_pixels());
    Frame::new(
        FrameOrigin::TestDouble,
        PixelFormat::Xrgb8888,
        GRADIENT_WIDTH_PX,
        GRADIENT_HEIGHT_PX,
        256,
        at,
        pixels,
    )
}

/// Whether a place of the shown picture lies on its rim.
pub open spec fn on_the_rim(x: int, y: int) -> bool {
    x < 2 || y < 2 || x + 2 >= TILED_WIDTH_PX || y + 2 >= TILED_HEIGHT_PX
}

/// A byte of the shown picture: a white rim round fields of sixteen by sixteen, whose
/// colours run with the place and begin at `phase`.
pub open spec fn tiled_byte(x: int, y: int, phase: int, channel: int) -> int {
    if channel == 3 || on_the_rim(x, y) {
        255
    } else if (x / 16 + y / 16) % 2 == 0 {
        if channel == 0 {
            (x + phase) % 256
        } else if channel == 1 {
            40
        } else {
            90
        }
    } else {
        if channel == 0 {
            20
        } else if channel == 1 {
            (y + phase) % 256
        } else {
            30
        }
    }
}

/// The bytes of the shown picture.
pub open spec fn tiled_pixels(phase: int) -> Seq<u8> {
    Seq::new(147456, |i: int| tiled_byte(i / 4 % 256, i / 4 / 256, phase, i % 4) as u8)
}

fn tiled_colour(x: u32, y: u32, phase: u32) -> (r: (u8, u8, u8))
    requires
        x < TILED_WIDTH_PX,
        y < TILED_HEIGHT_PX,
        phase <= u32::MAX - 253,
    ensures
        match r {
            (blue, green, red) => {
                &&& blue == tiled_byte(x as int, y as int, phase as int, 0)
                &&& green == tiled_byte(x as int, y as int, phase as int, 1)
                &&& red == tiled_byte(x as int, y as int, phase as int, 2)
            },
        },
{
    let rim = x < 2 || y < 2 || x + 2 >= TILED_WIDTH_PX || y + 2 >= TILED_HEIGHT_PX;
    if rim {
        (255, 255, 255)
    } else if (x / 16 + y / 16) % 2 == 0 {
        (((x + phase) % 256) as u8, 40, 90)
    } else {
        (20, ((y + phase) % 256) as u8, 30)
    }
}

/// The picture that is shown. It is a test double, no capture.
pub fn tiled_frame(at: UtcTimestamp, phase: u32) -> (r: Result<Frame, Error>)
    requires
        phase <= u32::MAX - 253,
    ensures
        r is Ok,
        r->Ok_0@ == (FrameView {
            origin: FrameOrigin::TestDouble,
            format: PixelFormat::Xrgb8888,
            width_px: TILED_WIDTH_PX,
            height_px: TILED_HEIGHT_PX,
            stride_bytes: 1024,
            captured_at: at,
            pixels: tiled_pixels(phase as int),
        }),
{
    let mut pixels: Vec<u8> = Vec::new();
    let mut p: u32 = 0;
    while p < 36864
        invariant
            p <= 36864,
            phase <= u32::MAX - 253,
            pixels@.len() == p * 4,
            forall|i: int|
                0 <= i < pixels@.len() ==> #[trigger] pixels@[i] == tiled_byte(
                    i / 4 % 256,
                    i / 4 / 256,
                    phase as int,
                    i % 4,
                ) as u8,
        decreases 36864 - p,
    {
        let (blue, green, red) = tiled_colour(p % 256, p / 256, phase);
        pixels.push(blue);
        pixels.push(green);
        pixels.push(red);
        pixels.push(255);
        p = p + 1;
    }
    assert(pixels@ =~= tiled_pixels(phase as int));
    Frame::new(
        FrameOrigin::TestDouble,
        PixelFormat::Xrgb8888,
        TILED_WIDTH_PX,
        TILED_HEIGHT_PX,
        1024,
        at,
        pixels,
    )
}

/// Whether pixel `p` has another colour in `a` than in `b`. The fourth byte is no colour.
pub open spec fn pixel_differs(a: Seq<u8>, b: Seq<u8>, p: int) -> bool {
    a[4 * p] != b[4 * p] || a[4 * p + 1] != b[4 * p + 1] || a[4 * p + 2] != b[4 * p + 2]
}

/// How many of the first `count` pixels differ.
pub open spec fn differing_before(a: Seq<u8>, b: Seq<u8>, count: int) -> nat
    decreases count,
{
    if count <= 0 {
        0
    } else {
        differing_before(a, b, count - 1) + if pixel_differs(a, b, count - 1) {
            1nat
        } else {
            0nat
        }
    }
}

/// How far two pictures differ: in pixels; where they do not have the same size, as many as
/// the larger has bytes.
pub open spec fn mismatches(a: Seq<u8>, b: Seq<u8>) -> nat {
    if a.len() != b.len() {
        if a.len() >= b.len() {
            a.len()
        } else {
            b.len()
        }
    } else {
        differing_before(a, b, a.len() as int / 4)
    }
}

/// Counts the pixels that differ.
pub fn count_mismatches(expected: &[u8], actual: &[u8]) -> (r: usize)
    ensures
        r == mismatches(expected@, actual@),
{
    if expected.len() != actual.len() {
        if expected.len() >= actual.len() {
            return expected.len();
        }
        return actual.len();
    }
    let pixels: usize = expected.len() / 4;
    let mut count: usize = 0;
    let mut p: usize = 0;
    while p < pixels
        invariant
            p <= pixels,
            pixels == expected@.len() as int / 4,
            expected@.len() == actual@.len(),
            expected@.len() <= usize::MAX,
            count <= p,
            count == differing_before(expected@, actual@, p as int),
        decreases pixels - p,
    {
        let base: usize = 4 * p;
        if expected[base] != actual[base] || expected[base + 1] != actual[base + 1] || expected[base
            + 2] != actual[base + 2] {
            count = count + 1;
        }
        p = p + 1;
    }
    count
}

/// That nothing differs means that every pixel has its colour.
pub proof fn law_no_mismatch_means_the_same_colours(a: Seq<u8>, b: Seq<u8>)
    ensures
        mismatches(a, b) == 0 <==> (a.len() == b.len() && forall|p: int|
            0 <= p < a.len() as int / 4 ==> !#[trigger] pixel_differs(a, b, p)),
{
    lemma_none_differs(a, b, a.len() as int / 4);
}

proof fn lemma_none_differs(a: Seq<u8>, b: Seq<u8>, count: int)
    ensures
        differing_before(a, b, count) == 0 <==> forall|p: int|
            0 <= p < count ==> !#[trigger] pixel_differs(a, b, p),
    decreases count,
{
    if count > 0 {
        lemma_none_differs(a, b, count - 1);
        if differing_before(a, b, count) == 0 {
            assert forall|p: int| 0 <= p < count implies !#[trigger] pixel_differs(a, b, p) by {
                if p == count - 1 {
                }
            }
        } else if differing_before(a, b, count - 1) == 0 {
            assert(pixel_differs(a, b, count - 1));
        }
    }
}

/// The picture with its first colour moved on in every whole pixel.
pub open spec fn shifted(bytes: Seq<u8>) -> Seq<u8> {
    Seq::new(
        bytes.len(),
        |i: int|
            if i % 4 == 0 && i + 3 < bytes.len() {
                ((bytes[i] + 17) % 256) as u8
            } else {
                bytes[i]
            },
    )
}

/// The picture with its first colour moved on in every whole pixel.
pub fn shift_one_channel(bytes: &[u8]) -> (r: Vec<u8>)
    ensures
        r@ == shifted(bytes@),
{
    let mut out: Vec<u8> = Vec::new();
    let mut i: usize = 0;
    while i < bytes.len()
        invariant
            i <= bytes.len(),
            out@.len() == i,
            forall|j: int| 0 <= j < i ==> #[trigger] out@[j] == shifted(bytes@)[j],
        decreases bytes.len() - i,
    {
        if i % 4 == 0 && bytes.len() - i > 3 {
            out.push(bytes[i].wrapping_add(17));
        } else {
            out.push(bytes[i]);
        }
        i = i + 1;
    }
    assert(out@ =~= shifted(bytes@));
    out
}

/// A picture whose colour was moved on differs from itself in every whole pixel, so
/// counting tells the two apart.
pub proof fn law_a_shifted_picture_differs_everywhere(bytes: Seq<u8>)
    ensures
        mismatches(shifted(bytes), bytes) == bytes.len() as int / 4,
{
    lemma_shift_is_seen(bytes, bytes.len() as int / 4);
}

proof fn lemma_shift_is_seen(bytes: Seq<u8>, count: int)
    requires
        0 <= count <= bytes.len() as int / 4,
    ensures
        differing_before(shifted(bytes), bytes, count) == count,
    decreases count,
{
    if count > 0 {
        lemma_shift_is_seen(bytes, count - 1);
        let base = 4 * (count - 1);
        assert(shifted(bytes)[base] != bytes[base]);
    }
}

/// The number of a colour.
pub open spec fn colour_number(blue: u8, green: u8, red: u8) -> u32 {
    (blue + 256 * green + 65536 * red) as u32
}

/// Different colours have different numbers.
pub proof fn law_colours_have_their_own_numbers(a: (u8, u8, u8), b: (u8, u8, u8))
    requires
        colour_number(a.0, a.1, a.2) == colour_number(b.0, b.1, b.2),
    ensures
        a == b,
{
}

/// The numbers of the colours of the first `count` pixels.
pub open spec fn colours_before(bytes: Seq<u8>, count: int) -> Set<u32>
    decreases count,
{
    if count <= 0 {
        Set::empty()
    } else {
        colours_before(bytes, count - 1).insert(
            colour_number(
                bytes[4 * (count - 1)],
                bytes[4 * (count - 1) + 1],
                bytes[4 * (count - 1) + 2],
            ),
        )
    }
}

/// How many colours a picture has.
pub open spec fn colour_count(bytes: Seq<u8>) -> nat {
    colours_before(bytes, bytes.len() as int / 4).len()
}

/// Counts the colours of a picture. With one alone, a picture that matches shows nothing.
pub fn distinct_pixels(bytes: &[u8]) -> (r: usize)
    ensures
        r == colour_count(bytes@),
{
    broadcast use vstd::std_specs::hash::group_hash_axioms;

    let pixels: usize = bytes.len() / 4;
    let mut seen: HashSet<u32> = HashSet::new();
    let mut p: usize = 0;
    while p < pixels
        invariant
            p <= pixels,
            pixels == bytes@.len() as int / 4,
            bytes@.len() <= usize::MAX,
            seen@ == colours_before(bytes@, p as int),
        decreases pixels - p,
    {
        let base: usize = 4 * p;
        let number: u32 = bytes[base] as u32 + 256 * bytes[base + 1] as u32 + 65536 * bytes[base
            + 2] as u32;
        seen.insert(number);
        p = p + 1;
    }
    seen.len()
}

/// Whether a texture came by the route that was asked for.
pub fn assert_route(actual: TextureRoute, expected: TextureRoute) -> (r: Result<(), Error>)
    ensures
        r is Ok <==> actual == expected,
        r matches Err(e) ==> e@ == plain_error(
            ErrorCode::Internal,
            "the texture took a different buffer route than the probe asked for"@,
        ).with("expected"@, DetailView::Text(expected.name())).with(
            "actual"@,
            DetailView::Text(actual.name()),
        ),
{
    if actual == expected {
        return Ok(());
    }
    Err(
        Error::new(
            ErrorCode::Internal,
            "the texture took a different buffer route than the probe asked for",
            TraceId::unattributed(),
        ).with_detail("expected", expected.as_str()).with_detail("actual", actual.as_str()),
    )
}

/// A layout and its number of planes, as JSON.
pub open spec fn modifier_fields(modifier: DrmModifier, planes: u32) -> JsonView {
    JsonView::Object(
        seq![
            ("modifier"@, JsonView::Int(modifier.value() as i64 as int)),
            ("vendor"@, JsonView::Int(modifier.value() as int / 0x100_0000_0000_0000)),
            ("plane_count"@, JsonView::Int(planes as int)),
        ],
    )
}

/// The layouts that a device offers, as JSON.
pub fn modifiers_json(modifiers: &[(DrmModifier, u32)]) -> (r: JsonValue)
    ensures
        r@ == JsonView::Array(
            Seq::new(
                modifiers@.len(),
                |i: int| modifier_fields(modifiers@[i].0, modifiers@[i].1),
            ),
        ),
{
    let mut items: Vec<JsonValue> = Vec::new();
    let mut i: usize = 0;
    while i < modifiers.len()
        invariant
            i <= modifiers.len(),
            items@.len() == i,
            forall|j: int|
                0 <= j < i ==> (#[trigger] items@[j])@ == modifier_fields(
                    modifiers@[j].0,
                    modifiers@[j].1,
                ),
        decreases modifiers.len() - i,
    {
        let (modifier, planes) = modifiers[i];
        let fields = JsonFields::new().with(
            "modifier",
            JsonValue::number(modifier.as_u64() as i64),
        ).with("vendor", JsonValue::number(modifier.vendor() as i64)).with(
            "plane_count",
            JsonValue::number(planes as i64),
        );
        let item = fields.into_object();
        proof {
            assert(item@ == modifier_fields(modifier, planes)) by {
                let want = modifier_fields(modifier, planes);
                assert(item@->Object_0 =~= want->Object_0);
            }
        }
        items.push(item);
        i = i + 1;
    }
    let r = array_of(items);
    assert(r@->Array_0 =~= Seq::new(
        modifiers@.len(),
        |i: int| modifier_fields(modifiers@[i].0, modifiers@[i].1),
    ));
    r
}

/// A buffer that was handed out, as JSON.
pub fn exported_json(
    modifier: DrmModifier,
    plane_count: usize,
    stride: u64,
    offset: u64,
    fd: i32,
) -> (r: JsonValue)
    ensures
        r@ == JsonView::Object(
            seq![
                ("modifier"@, JsonView::Int(modifier.value() as i64 as int)),
                ("vendor"@, JsonView::Int(modifier.value() as int / 0x100_0000_0000_0000)),
                ("plane_count"@, JsonView::Int(plane_count as i64 as int)),
                ("stride"@, JsonView::Int(stride as i64 as int)),
                ("offset"@, JsonView::Int(offset as i64 as int)),
                ("fd"@, JsonView::Int(fd as int)),
            ],
        ),
{
    let fields = JsonFields::new().with(
        "modifier",
        JsonValue::number(modifier.as_u64() as i64),
    ).with("vendor", JsonValue::number(modifier.vendor() as i64)).with(
        "plane_count",
        JsonValue::number(plane_count as i64),
    ).with("stride", JsonValue::number(stride as i64)).with(
        "offset",
        JsonValue::number(offset as i64),
    ).with("fd", JsonValue::number(fd as i64));
    assert(fields@ =~= seq![
        ("modifier"@, JsonView::Int(modifier.value() as i64 as int)),
        ("vendor"@, JsonView::Int(modifier.value() as int / 0x100_0000_0000_0000)),
        ("plane_count"@, JsonView::Int(plane_count as i64 as int)),
        ("stride"@, JsonView::Int(stride as i64 as int)),
        ("offset"@, JsonView::Int(offset as i64 as int)),
        ("fd"@, JsonView::Int(fd as int)),
    ]);
    fields.into_object()
}

/// The number that the first pixel spells.
pub open spec fn first_pixel(bytes: Seq<u8>) -> int {
    bytes[0] + 256 * bytes[1] + 65536 * bytes[2] + 16777216 * bytes[3]
}

fn read_first_pixel(bytes: &[u8]) -> (r: i64)
    requires
        bytes@.len() >= 4,
    ensures
        r == first_pixel(bytes@),
{
    bytes[0] as i64 + 256 * bytes[1] as i64 + 65536 * bytes[2] as i64 + 16777216 * bytes[3] as i64
}

/// What came back of a picture, as JSON. Both pictures hold a pixel.
pub fn sampled_json(expected: &[u8], actual: &[u8]) -> (r: JsonValue)
    requires
        expected@.len() >= 4,
        actual@.len() >= 4,
    ensures
        r@ == JsonView::Object(
            seq![
                ("bytes"@, JsonView::Int(actual@.len() as usize as i64 as int)),
                (
                    "mismatching_pixels"@,
                    JsonView::Int(mismatches(expected@, actual@) as usize as i64 as int),
                ),
                ("first_expected"@, JsonView::Int(first_pixel(expected@))),
                ("first_actual"@, JsonView::Int(first_pixel(actual@))),
            ],
        ),
{
    let differing: usize = count_mismatches(expected, actual);
    let fields = JsonFields::new().with("bytes", JsonValue::number(actual.len() as i64)).with(
        "mismatching_pixels",
        JsonValue::number(differing as i64),
    ).with("first_expected", JsonValue::number(read_first_pixel(expected))).with(
        "first_actual",
        JsonValue::number(read_first_pixel(actual)),
    );
    assert(fields@ =~= seq![
        ("bytes"@, JsonView::Int(actual@.len() as usize as i64 as int)),
        (
            "mismatching_pixels"@,
            JsonView::Int(mismatches(expected@, actual@) as usize as i64 as int),
        ),
        ("first_expected"@, JsonView::Int(first_pixel(expected@))),
        ("first_actual"@, JsonView::Int(first_pixel(actual@))),
    ]);
    fields.into_object()
}

/// Whether what came back by way of the shared buffer is what was written.
pub fn check_shared_pixels(expected: &[u8], actual: &[u8]) -> (r: Result<(), Error>)
    ensures
        r is Ok <==> mismatches(expected@, actual@) == 0,
        r matches Err(e) ==> e@ == plain_error(
            ErrorCode::Internal,
            "the pixels read back through the imported dma_buf do not match what the producer wrote"@,
        ).with(
            "mismatching_pixels"@,
            DetailView::Int(mismatches(expected@, actual@) as usize as i64 as int),
        ),
{
    let differing: usize = count_mismatches(expected, actual);
    if differing == 0 {
        return Ok(());
    }
    Err(
        Error::new(
            ErrorCode::Internal,
            "the pixels read back through the imported dma_buf do not match what the producer wrote",
            TraceId::unattributed(),
        ).with_detail("mismatching_pixels", differing as i64),
    )
}

/// Whether what came back by way of copied memory is what was written.
pub fn check_copied_pixels(expected: &[u8], actual: &[u8]) -> (r: Result<(), Error>)
    ensures
        r is Ok <==> mismatches(expected@, actual@) == 0,
        r matches Err(e) ==> e@ == plain_error(
            ErrorCode::Internal,
            "the pixels read back through the shm fallback do not match the source"@,
        ).with(
            "mismatching_pixels"@,
            DetailView::Int(mismatches(expected@, actual@) as usize as i64 as int),
        ),
{
    let differing: usize = count_mismatches(expected, actual);
    if differing == 0 {
        return Ok(());
    }
    Err(
        Error::new(
            ErrorCode::Internal,
            "the pixels read back through the shm fallback do not match the source",
            TraceId::unattributed(),
        ).with_detail("mismatching_pixels", differing as i64),
    )
}

/// How far the comparison of pictures can be trusted.
#[derive(Debug, Clone, Copy, PartialEq, Eq, Structural)]
pub struct Calibration {
    /// How many colours came back.
    pub distinct_pixels_read_back: usize,
    /// In how many pixels a picture that was moved on differs from what came back.
    pub mismatches_against_shifted: usize,
}

impl Calibration {
    /// Tries the comparison on a picture that is known to differ.
    pub fn of(expected: &[u8], actual: &[u8]) -> (r: Self)
        ensures
            r.distinct_pixels_read_back == colour_count(actual@),
            r.mismatches_against_shifted == mismatches(shifted(expected@), actual@),
    {
        let moved = shift_one_channel(expected);
        Calibration {
            distinct_pixels_read_back: distinct_pixels(actual),
            mismatches_against_shifted: count_mismatches(moved.as_slice(), actual),
        }
    }

    /// The calibration, as JSON.
    pub fn to_json(&self) -> (r: JsonValue)
        ensures
            r@ == JsonView::Object(
                seq![
                    (
                        "distinct_pixels_read_back"@,
                        JsonView::Int(self.distinct_pixels_read_back as i64 as int),
                    ),
                    ("total_pixels"@, JsonView::Int(GRADIENT_WIDTH_PX * GRADIENT_HEIGHT_PX)),
                    (
                        "mismatches_against_shifted"@,
                        JsonView::Int(self.mismatches_against_shifted as i64 as int),
                    ),
                ],
            ),
    {
        let fields = JsonFields::new().with(
            "distinct_pixels_read_back",
            JsonValue::number(self.distinct_pixels_read_back as i64),
        ).with(
            "total_pixels",
            JsonValue::number((GRADIENT_WIDTH_PX * GRADIENT_HEIGHT_PX) as i64),
        ).with(
            "mismatches_against_shifted",
            JsonValue::number(self.mismatches_against_shifted as i64),
        );
        assert(fields@ =~= seq![
            (
                "distinct_pixels_read_back"@,
                JsonView::Int(self.distinct_pixels_read_back as i64 as int),
            ),
            ("total_pixels"@, JsonView::Int(GRADIENT_WIDTH_PX * GRADIENT_HEIGHT_PX)),
            (
                "mismatches_against_shifted"@,
                JsonView::Int(self.mismatches_against_shifted as i64 as int),
            ),
        ]);
        fields.into_object()
    }

    /// Whether the comparison means anything: what came back has more than one colour, and
    /// a picture that differs is seen to differ.
    pub fn check(&self) -> (r: Result<(), Error>)
        ensures
            r is Ok <==> self.distinct_pixels_read_back >= 2 && self.mismatches_against_shifted
                > 0,
            r matches Err(e) ==> e@ == (if self.distinct_pixels_read_back < 2 {
                plain_error(
                    ErrorCode::Internal,
                    "the image read back is a single flat colour, so a zero mismatch count proves nothing"@,
                ).with(
                    "distinct_pixels_read_back"@,
                    DetailView::Int(self.distinct_pixels_read_back as int),
                )
            } else {
                plain_error(
                    ErrorCode::Internal,
                    "the comparator reports no mismatch against deliberately shifted pixels, so it cannot detect a mismatch at all"@,
                )
            }),
    {
        if self.distinct_pixels_read_back < 2 {
            return Err(
                Error::new(
                    ErrorCode::Internal,
                    "the image read back is a single flat colour, so a zero mismatch count proves nothing",
                    TraceId::unattributed(),
                ).with_detail("distinct_pixels_read_back", self.distinct_pixels_read_back as i64),
            );
        }
        if self.mismatches_against_shifted == 0 {
            return Err(
                Error::new(
                    ErrorCode::Internal,
                    "the comparator reports no mismatch against deliberately shifted pixels, so it cannot detect a mismatch at all",
                    TraceId::unattributed(),
                ),
            );
        }
        Ok(())
    }
}

proof fn lemma_same_colours_differ_alike(a: Seq<u8>, b: Seq<u8>, c: Seq<u8>, count: int)
    requires
        0 <= count <= a.len() as int / 4,
        b.len() == c.len(),
        forall|p: int| 0 <= p < count ==> !#[trigger] pixel_differs(b, c, p),
    ensures
        differing_before(a, b, count) == differing_before(a, c, count),
    decreases count,
{
    if count > 0 {
        lemma_same_colours_differ_alike(a, b, c, count - 1);
        assert(!pixel_differs(b, c, count - 1));
    }
}

/// Where what came back is what was written, a picture that was moved on differs from it in
/// every pixel: a comparison that works passes its own trial on every picture that holds a
/// pixel.
pub proof fn law_matching_pixels_pass_the_trial(expected: Seq<u8>, actual: Seq<u8>)
    requires
        mismatches(expected, actual) == 0,
    ensures
        mismatches(shifted(expected), actual) == expected.len() as int / 4,
{
    law_no_mismatch_means_the_same_colours(expected, actual);
    if expected.len() == actual.len() {
        lemma_same_colours_differ_alike(
            shifted(expected),
            expected,
            actual,
            expected.len() as int / 4,
        );
        law_a_shifted_picture_differs_everywhere(expected);
    }
}

/// What was seen in a picture that was handed over.
#[derive(Debug, Clone, Copy, PartialEq, Eq, Structural)]
pub struct SubmittedImageReport {
    /// How many of the four corners are black.
    pub corner_is_black_count: usize,
    /// How many pixels are not black.
    pub non_black_pixels: usize,
    /// How many pixels there are.
    pub total_pixels: usize,
    /// How many colours there are.
    pub distinct_colours: usize,
}

/// Whether the pixel that begins at a byte is black. One that the picture does not hold is
/// taken for black.
pub open spec fn black_at(bytes: Seq<u8>, base: int) -> bool {
    base + 3 <= bytes.len() ==> bytes[base] == 0 && bytes[base + 1] == 0 && bytes[base + 2] == 0
}

/// The last place of a row or a column: the first one, where there is none.
pub open spec fn last_place(extent: u32) -> int {
    if extent == 0 {
        0
    } else {
        extent - 1
    }
}

/// How many of the corners are black.
pub open spec fn black_corners(bytes: Seq<u8>, width: u32, height: u32) -> nat {
    let right = last_place(width) * 4;
    let bottom = last_place(height) * (width * 4);
    (if black_at(bytes, 0) {
        1nat
    } else {
        0nat
    }) + (if black_at(bytes, right) {
        1nat
    } else {
        0nat
    }) + (if black_at(bytes, bottom) {
        1nat
    } else {
        0nat
    }) + (if black_at(bytes, bottom + right) {
        1nat
    } else {
        0nat
    })
}

/// How many of the first `count` pixels are not black.
pub open spec fn coloured_before(bytes: Seq<u8>, count: int) -> nat
    decreases count,
{
    if count <= 0 {
        0
    } else {
        coloured_before(bytes, count - 1) + if black_at(bytes, 4 * (count - 1)) {
            0nat
        } else {
            1nat
        }
    }
}

fn is_black_at(bytes: &[u8], base: usize) -> (r: bool)
    requires
        base + 3 <= usize::MAX,
    ensures
        r == black_at(bytes@, base as int),
{
    if base + 3 <= bytes.len() {
        bytes[base] == 0 && bytes[base + 1] == 0 && bytes[base + 2] == 0
    } else {
        true
    }
}

fn one_if(held: bool) -> (r: usize)
    ensures
        r == (if held {
            1
        } else {
            0int
        }),
{
    if held {
        1
    } else {
        0
    }
}

/// Looks at a picture that was handed over.
pub fn inspect_submitted_image(bytes: &[u8], width: u32, height: u32) -> (r: SubmittedImageReport)
    requires
        width * 4 <= usize::MAX,
        width * 4 * height <= usize::MAX,
    ensures
        r.corner_is_black_count == black_corners(bytes@, width, height),
        r.non_black_pixels == coloured_before(bytes@, bytes@.len() as int / 4),
        r.total_pixels == width * height,
        r.distinct_colours == colour_count(bytes@),
{
    let stride: usize = width as usize * 4;
    let last_x: usize = if width == 0 {
        0
    } else {
        (width - 1) as usize
    };
    let last_y: usize = if height == 0 {
        0
    } else {
        (height - 1) as usize
    };
    proof {
        assert(last_y * stride <= height * stride) by (nonlinear_arith)
            requires
                last_y <= height,
                0 <= stride,
        ;
        assert(height * stride == width * 4 * height) by (nonlinear_arith)
            requires
                stride == width * 4,
        ;
        if height > 0 {
            assert(last_y * stride == height * stride - stride) by (nonlinear_arith)
                requires
                    last_y == height - 1,
            ;
        } else {
            assert(last_y * stride == 0) by (nonlinear_arith)
                requires
                    last_y == 0,
            ;
        }
        assert(width * height <= width * 4 * height) by (nonlinear_arith);
        if width == 0 {
            assert(last_y * stride == 0) by (nonlinear_arith)
                requires
                    stride == 0,
            ;
        }
    }
    let right: usize = last_x * 4;
    let bottom: usize = last_y * stride;
    let corner_is_black_count: usize = one_if(is_black_at(bytes, 0)) + one_if(
        is_black_at(bytes, right),
    ) + one_if(is_black_at(bytes, bottom)) + one_if(is_black_at(bytes, bottom + right));
    let pixels: usize = bytes.len() / 4;
    let mut non_black_pixels: usize = 0;
    let mut p: usize = 0;
    while p < pixels
        invariant
            p <= pixels,
            pixels == bytes@.len() as int / 4,
            bytes@.len() <= usize::MAX,
            non_black_pixels <= p,
            non_black_pixels == coloured_before(bytes@, p as int),
        decreases pixels - p,
    {
        if !is_black_at(bytes, 4 * p) {
            non_black_pixels = non_black_pixels + 1;
        }
        p = p + 1;
    }
    SubmittedImageReport {
        corner_is_black_count,
        non_black_pixels,
        total_pixels: width as usize * height as usize,
        distinct_colours: distinct_pixels(bytes),
    }
}

impl SubmittedImageReport {
    /// The fields of [`SubmittedImageReport::to_json`].
    pub open spec fn fields(self) -> Seq<(Seq<char>, JsonView)> {
        seq![
            ("corner_is_black_count"@, JsonView::Int(self.corner_is_black_count as i64 as int)),
            ("non_black_pixels"@, JsonView::Int(self.non_black_pixels as i64 as int)),
            ("total_pixels"@, JsonView::Int(self.total_pixels as i64 as int)),
            ("distinct_colours"@, JsonView::Int(self.distinct_colours as i64 as int)),
        ]
    }

    /// What was seen, as JSON.
    pub fn to_json(&self) -> (r: JsonValue)
        ensures
            r@ == JsonView::Object(self.fields()),
    {
        let fields = JsonFields::new().with(
            "corner_is_black_count",
            JsonValue::number(self.corner_is_black_count as i64),
        ).with("non_black_pixels", JsonValue::number(self.non_black_pixels as i64)).with(
            "total_pixels",
            JsonValue::number(self.total_pixels as i64),
        ).with("distinct_colours", JsonValue::number(self.distinct_colours as i64));
        assert(fields@ =~= self.fields());
        fields.into_object()
    }

    /// Whether the picture is the scene that was drawn: its corners are black, something is
    /// drawn into it, and it has at least three colours.
    pub fn check(&self) -> (r: Result<(), Error>)
        ensures
            r is Ok <==> self.corner_is_black_count == 4 && self.non_black_pixels > 0
                && self.distinct_colours >= 3,
            r matches Err(e) ==> e@ == (if self.corner_is_black_count != 4 {
                plain_error(
                    ErrorCode::Internal,
                    "the corners of the submitted image are not black, so the background is not owned by schorl"@,
                ).with(
                    "corner_is_black_count"@,
                    DetailView::Int(self.corner_is_black_count as i64 as int),
                )
            } else if self.non_black_pixels == 0 {
                plain_error(
                    ErrorCode::Internal,
                    "the submitted image is entirely black, so no surface was drawn into it"@,
                )
            } else {
                plain_error(
                    ErrorCode::Internal,
                    "the submitted image has too few distinct colours to be the rendered scene"@,
                ).with("distinct_colours"@, DetailView::Int(self.distinct_colours as int))
            }),
    {
        if self.corner_is_black_count != 4 {
            return Err(
                Error::new(
                    ErrorCode::Internal,
                    "the corners of the submitted image are not black, so the background is not owned by schorl",
                    TraceId::unattributed(),
                ).with_detail("corner_is_black_count", self.corner_is_black_count as i64),
            );
        }
        if self.non_black_pixels == 0 {
            return Err(
                Error::new(
                    ErrorCode::Internal,
                    "the submitted image is entirely black, so no surface was drawn into it",
                    TraceId::unattributed(),
                ),
            );
        }
        if self.distinct_colours < 3 {
            return Err(
                Error::new(
                    ErrorCode::Internal,
                    "the submitted image has too few distinct colours to be the rendered scene",
                    TraceId::unattributed(),
                ).with_detail("distinct_colours", self.distinct_colours as i64),
            );
        }
        Ok(())
    }
}

/// The head of a picture file.
pub open spec fn ppm_head(width: u32, height: u32) -> Seq<char> {
    "P6\n"@ + decimal(width as nat) + " "@ + decimal(height as nat) + "\n255\n"@
}

/// The file of a picture: its head, then red, green and blue of every whole pixel.
pub open spec fn ppm_file(bytes: Seq<u8>, width: u32, height: u32) -> Seq<u8> {
    ppm_head(width, height).map_values(|c: char| c as u8) + Seq::new(
        (bytes.len() / 4 * 3) as nat,
        |i: int| bytes[i / 3 * 4 + 2 - i % 3],
    )
}

/// The file of a picture, whose pixels are blue, green, red and a byte that is left out.
pub fn ppm_bytes(bytes: &[u8], width: u32, height: u32) -> (r: Vec<u8>)
    ensures
        r@ == ppm_file(bytes@, width, height),
{
    let mut head = String::new();
    head.append("P6\n");
    push_decimal(&mut head, width as u64);
    head.append(" ");
    push_decimal(&mut head, height as u64);
    head.append("\n255\n");
    assert(head@ =~= ppm_head(width, height));
    let letters = chars_of(head.as_str());
    let mut out: Vec<u8> = Vec::new();
    let mut i: usize = 0;
    while i < letters.len()
        invariant
            i <= letters.len(),
            letters@ == head@,
            out@ == head@.take(i as int).map_values(|c: char| c as u8),
        decreases letters.len() - i,
    {
        out.push(letters[i] as u8);
        i = i + 1;
        assert(out@ =~= head@.take(i as int).map_values(|c: char| c as u8));
    }
    assert(head@.take(i as int) =~= head@);
    let ghost start = out@;
    let pixels: usize = bytes.len() / 4;
    let mut p: usize = 0;
    while p < pixels
        invariant
            p <= pixels,
            pixels == bytes@.len() as int / 4,
            bytes@.len() <= usize::MAX,
            out@.len() == start.len() + 3 * p,
            out@.take(start.len() as int) == start,
            forall|j: int|
                0 <= j < 3 * p ==> #[trigger] out@[start.len() + j] == bytes@[j / 3 * 4 + 2 - j
                    % 3],
        decreases pixels - p,
    {
        let base: usize = 4 * p;
        let ghost before = out@;
        out.push(bytes[base + 2]);
        out.push(bytes[base + 1]);
        out.push(bytes[base]);
        proof {
            assert(out@.take(start.len() as int) =~= start) by {
                assert forall|j: int| 0 <= j < start.len() implies out@[j] == start[j] by {
                    assert(before.take(start.len() as int)[j] == before[j]);
                }
            }
            assert forall|j: int| 0 <= j < 3 * (p + 1) implies #[trigger] out@[start.len() + j]
                == bytes@[j / 3 * 4 + 2 - j % 3] by {
                if j < 3 * p {
                    assert(before[start.len() + j] == out@[start.len() + j]);
                }
            }
        }
        p = p + 1;
    }
    proof {
        let want = ppm_file(bytes@, width, height);
        assert(out@.len() == want.len());
        assert forall|j: int| 0 <= j < out@.len() implies out@[j] == want[j] by {
            if j < start.len() {
                assert(out@.take(start.len() as int)[j] == out@[j]);
            } else {
                let k = j - start.len();
                assert(out@[start.len() + k] == bytes@[k / 3 * 4 + 2 - k % 3]);
            }
        }
        assert(out@ =~= want);
    }
    out
}

/// The surfaces that were placed, as JSON.
pub fn surfaces_json(routes: &[TextureRoute]) -> (r: JsonValue)
    ensures
        r@ == JsonView::Object(
            seq![
                ("count"@, JsonView::Int(routes@.len() as usize as i64 as int)),
                (
                    "routes"@,
                    JsonView::Array(
                        Seq::new(routes@.len(), |i: int| JsonView::Text(routes@[i].name())),
                    ),
                ),
            ],
        ),
{
    let mut items: Vec<JsonValue> = Vec::new();
    let mut i: usize = 0;
    while i < routes.len()
        invariant
            i <= routes.len(),
            items@.len() == i,
            forall|j: int|
                0 <= j < i ==> (#[trigger] items@[j])@ == JsonView::Text(routes@[j].name()),
        decreases routes.len() - i,
    {
        items.push(JsonValue::text(routes[i].as_str()));
        i = i + 1;
    }
    let list = array_of(items);
    assert(list@->Array_0 =~= Seq::new(
        routes@.len(),
        |i: int| JsonView::Text(routes@[i].name()),
    ));
    let fields = JsonFields::new().with("count", JsonValue::number(routes.len() as i64)).with(
        "routes",
        list,
    );
    assert(fields@ =~= seq![
        ("count"@, JsonView::Int(routes@.len() as usize as i64 as int)),
        (
            "routes"@,
            JsonView::Array(Seq::new(routes@.len(), |i: int| JsonView::Text(routes@[i].name()))),
        ),
    ]);
    fields.into_object()
}

/// Whether the picture of a frame is kept: that of the last frame, once.
pub fn wants_capture(index: usize, captured: bool) -> (r: bool)
    ensures
        r == (index == PROBE_FRAMES - 1 && !captured),
{
    index == PROBE_FRAMES - 1 && !captured
}

/// What a turn of the frame loop comes to.
#[derive(Debug, Clone, Copy, PartialEq, Eq, Structural)]
pub enum ProbeStep {
    /// The runtime asks for the end.
    Exiting,
    /// The session does not run any more.
    Stopped,
    /// A frame is shown, and its picture is kept or not.
    Show { capture: bool },
}

/// Decides, once the events were taken, what a turn of the frame loop comes to. The wish of
/// the runtime goes before the state of the session.
pub fn probe_step(exiting: bool, running: bool, index: usize, captured: bool) -> (r: ProbeStep)
    ensures
        r == (if exiting {
            ProbeStep::Exiting
        } else if !running {
            ProbeStep::Stopped
        } else {
            ProbeStep::Show { capture: index == PROBE_FRAMES - 1 && !captured }
        }),
{
    if exiting {
        ProbeStep::Exiting
    } else if !running {
        ProbeStep::Stopped
    } else {
        ProbeStep::Show { capture: wants_capture(index, captured) }
    }
}

/// The error of a session that never ran.
pub fn never_running() -> (r: Error)
    ensures
        r@ == plain_error(
            ErrorCode::HostRefused,
            "the OpenXR session never reached the RUNNING state, so no frame was submitted"@,
        ),
{
    Error::new(
        ErrorCode::HostRefused,
        "the OpenXR session never reached the RUNNING state, so no frame was submitted",
        TraceId::unattributed(),
    )
}

/// Whether frames with surfaces were shown.
pub fn check_shown(frames_submitted: usize, frames_with_surface: usize, exiting: bool) -> (r: Result<
    (),
    Error,
>)
    ensures
        r is Ok <==> frames_submitted > 0 && frames_with_surface > 0,
        r matches Err(e) ==> e@ == (if frames_submitted == 0 {
            plain_error(ErrorCode::HostRefused, "no frame reached xrEndFrame"@).with(
                "exiting"@,
                DetailView::Bool(exiting),
            )
        } else {
            plain_error(
                ErrorCode::Internal,
                "frames were submitted but none carried a surface"@,
            ).with("frames_submitted"@, DetailView::Int(frames_submitted as i64 as int))
        }),
{
    if frames_submitted == 0 {
        return Err(
            Error::new(
                ErrorCode::HostRefused,
                "no frame reached xrEndFrame",
                TraceId::unattributed(),
            ).with_detail("exiting", exiting),
        );
    }
    if frames_with_surface == 0 {
        return Err(
            Error::new(
                ErrorCode::Internal,
                "frames were submitted but none carried a surface",
                TraceId::unattributed(),
            ).with_detail("frames_submitted", frames_submitted as i64),
        );
    }
    Ok(())
}

} // verus!
