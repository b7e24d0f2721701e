//! How shared buffers are told, chosen and taken.

use vstd::prelude::*;

use super::{
    check_export_path, export_format, export_plane_count, fourcc, frame_vk_format,
    law_fourcc_spells_its_characters, measurement_modifiers,
    modifiers_with, plan_import, planes_of, probe_modifiers, single_plane_modifiers,
    single_planes, usable_modifiers, DmabufDescriptor, DmabufPlane, DrmFormat, DrmModifier,
    ExportedDmabuf, ImportPlan, ModifierOffer,
};
use crate::error::Error;
use crate::frame::PixelFormat;

verus! {

/// Four characters make the number whose bytes they are, the first in the lowest, and the
/// number of a layout is written out as these characters again.
pub proof fn law_layout_is_told_by_its_characters(
    a: u8,
    b: u8,
    c: u8,
    d: u8,
    code: u32,
    layout: DrmFormat,
    text: String,
)
    requires
        call_ensures(fourcc, (a, b, c, d), code),
        call_ensures(DrmFormat::from_u32, (code,), layout),
        call_ensures(DrmFormat::as_fourcc_string, (layout,), text),
    ensures
        code % 0x100 == a,
        code / 0x100 % 0x100 == b,
        code / 0x1_0000 % 0x100 == c,
        code / 0x100_0000 == d,
        text@ == seq![a as char, b as char, c as char, d as char],
{
    law_fourcc_spells_its_characters(a, b, c, d);
}

/// The two layouts that frames have are those called XR24 and AR24; both are drawn from bytes
/// of blue, green, red and opacity, and no other layout is drawn.
pub proof fn law_two_layouts_are_drawn(
    format: PixelFormat,
    layout: DrmFormat,
    any: DrmFormat,
    drawn: Option<i32>,
    exported: Result<i32, Error>,
    frame: Result<i32, Error>,
)
    requires
        call_ensures(DrmFormat::from_pixel_format, (format,), layout),
        call_ensures(DrmFormat::to_vk_format, (any,), drawn),
        call_ensures(export_format, (any,), exported),
        call_ensures(frame_vk_format, (format,), frame),
    ensures
        format is Xrgb8888 ==> layout.code() == 0x3432_5258,
        format is Argb8888 ==> layout.code() == 0x3432_5241,
        drawn is Some <==> any.code() == 0x3432_5258 || any.code() == 0x3432_5241,
        drawn matches Some(f) ==> f == 44,
        exported is Ok <==> drawn is Some,
        exported matches Ok(f) ==> f == 44,
        frame matches Ok(f) && f == 44,
{
}

/// A buffer is imported as it is described: its extent, its arrangement and, in order, where
/// each of its planes begins and how long its rows are. It is refused exactly where the device
/// does not share buffers, or it has no plane, no extent or a layout that is not drawn.
pub proof fn law_buffer_is_imported_as_described<F>(
    has_path: bool,
    descriptor: DmabufDescriptor<F>,
    r: Result<ImportPlan, Error>,
)
    requires
        call_ensures(plan_import::<F>, (has_path, &descriptor), r),
    ensures
        r is Ok <==> {
            &&& has_path
            &&& descriptor.planes@.len() > 0
            &&& descriptor.width_px > 0
            &&& descriptor.height_px > 0
            &&& descriptor.format.code() == 0x3432_5258 || descriptor.format.code() == 0x3432_5241
        },
        r matches Ok(plan) ==> {
            &&& plan.width_px == descriptor.width_px
            &&& plan.height_px == descriptor.height_px
            &&& plan.modifier == descriptor.modifier
            &&& plan.format == 44
            &&& plan.layouts@.len() == descriptor.planes@.len()
            &&& forall|i: int|
                0 <= i < plan.layouts@.len() ==> {
                    &&& (#[trigger] plan.layouts@[i]).offset == descriptor.planes@[i].offset
                    &&& plan.layouts@[i].row_pitch == descriptor.planes@[i].stride
                    &&& plan.layouts@[i].size == 0
                    &&& plan.layouts@[i].array_pitch == 0
                    &&& plan.layouts@[i].depth_pitch == 0
                }
        },
{
}

/// What was exported with a number of planes is imported with as many, at the same extent and
/// in the same arrangement.
pub proof fn law_export_and_import_agree<F>(
    width_px: u32,
    height_px: u32,
    format: DrmFormat,
    modifier: DrmModifier,
    planes: Vec<DmabufPlane<F>>,
    exported: ExportedDmabuf<F>,
    r: Result<ImportPlan, Error>,
)
    requires
        width_px > 0,
        height_px > 0,
        planes@.len() > 0,
        format.code() == 0x3432_5258 || format.code() == 0x3432_5241,
        call_ensures(
            ExportedDmabuf::<F>::of,
            (width_px, height_px, format, modifier, planes),
            exported,
        ),
        call_ensures(plan_import::<F>, (true, &exported.descriptor), r),
    ensures
        r is Ok,
        r->Ok_0.layouts@.len() == planes@.len(),
        r->Ok_0.width_px == width_px,
        r->Ok_0.height_px == height_px,
        r->Ok_0.modifier == modifier,
        exported.chosen_modifier == modifier,
{
}

proof fn lemma_modifiers_with(offers: Seq<ModifierOffer>, required: u32)
    ensures
        ({
            let fitting = offers.filter(|o: ModifierOffer| o.features & required == required);
            &&& modifiers_with(offers, required).len() == fitting.len()
            &&& forall|i: int|
                0 <= i < fitting.len() ==> modifiers_with(offers, required)[i] == (
                    (#[trigger] fitting[i]).modifier,
                    fitting[i].plane_count,
                )
        }),
    decreases offers.len(),
{
    reveal(Seq::filter);
    if offers.len() > 0 {
        lemma_modifiers_with(offers.drop_last(), required);
    }
}

/// The arrangements that are usable are those with every required feature, in order, each with
/// its planes.
pub proof fn law_usable_arrangements_have_every_feature(
    has_extension: bool,
    offers: &[ModifierOffer],
    required: u32,
    r: Result<Vec<(DrmModifier, u32)>, Error>,
)
    requires
        call_ensures(usable_modifiers, (has_extension, offers, required), r),
    ensures
        r is Ok <==> has_extension,
        r matches Ok(v) ==> {
            let fitting = offers@.filter(|o: ModifierOffer| o.features & required == required);
            &&& v@.len() == fitting.len()
            &&& forall|i: int|
                0 <= i < fitting.len() ==> v@[i] == (
                    (#[trigger] fitting[i]).modifier,
                    fitting[i].plane_count,
                )
        },
{
    lemma_modifiers_with(offers@, required);
}

proof fn lemma_single_planes(modifiers: Seq<(DrmModifier, u32)>)
    ensures
        ({
            let single = modifiers.filter(|m: (DrmModifier, u32)| m.1 == 1);
            &&& single_planes(modifiers).len() == single.len()
            &&& forall|i: int|
                0 <= i < single.len() ==> single_planes(modifiers)[i] == (
                #[trigger] single[i]).0.value()
        }),
    decreases modifiers.len(),
{
    reveal(Seq::filter);
    if modifiers.len() > 0 {
        lemma_single_planes(modifiers.drop_last());
    }
}

/// A measurement may use the arrangements of one plane, in order and no others, and fails
/// exactly where there is none of them.
pub proof fn law_measurements_use_a_single_plane(
    format: DrmFormat,
    modifiers: &[(DrmModifier, u32)],
    kept: Vec<u64>,
    measured: Result<Vec<u64>, Error>,
    probed: Result<Vec<u64>, Error>,
)
    requires
        call_ensures(single_plane_modifiers, (modifiers,), kept),
        call_ensures(measurement_modifiers, (format, modifiers), measured),
        call_ensures(probe_modifiers, (modifiers,), probed),
    ensures
        ({
            let single = modifiers@.filter(|m: (DrmModifier, u32)| m.1 == 1);
            &&& kept@.len() == single.len()
            &&& forall|i: int|
                0 <= i < single.len() ==> kept@[i] == (#[trigger] single[i]).0.value()
            &&& measured is Ok <==> single.len() > 0
            &&& probed is Ok <==> single.len() > 0
            &&& measured matches Ok(v) ==> v@ == kept@
            &&& probed matches Ok(v) ==> v@ == kept@
        }),
{
    lemma_single_planes(modifiers@);
}

proof fn lemma_planes_of(modifiers: Seq<(DrmModifier, u32)>, chosen: DrmModifier)
    ensures
        match planes_of(modifiers, chosen) {
            None => forall|i: int| 0 <= i < modifiers.len() ==> (#[trigger] modifiers[i]).0 != chosen,
            Some(n) => exists|i: int|
                {
                    &&& 0 <= i < modifiers.len()
                    &&& #[trigger] modifiers[i] == (chosen, n)
                    &&& forall|j: int| 0 <= j < i ==> (#[trigger] modifiers[j]).0 != chosen
                },
        },
    decreases modifiers.len(),
{
    if modifiers.len() > 0 {
        if modifiers[0].0 == chosen {
            assert(modifiers[0] == (chosen, modifiers[0].1));
        } else {
            let rest = modifiers.drop_first();
            lemma_planes_of(rest, chosen);
            match planes_of(rest, chosen) {
                None => {
                    assert forall|i: int| 0 <= i < modifiers.len() implies (
                    #[trigger] modifiers[i]).0 != chosen by {
                        if i > 0 {
                            assert(rest[i - 1].0 != chosen);
                        }
                    }
                },
                Some(n) => {
                    let i = choose|i: int|
                        {
                            &&& 0 <= i < rest.len()
                            &&& #[trigger] rest[i] == (chosen, n)
                            &&& forall|j: int| 0 <= j < i ==> (#[trigger] rest[j]).0 != chosen
                        };
                    assert(modifiers[i + 1] == (chosen, n));
                    assert forall|j: int| 0 <= j < i + 1 implies (#[trigger] modifiers[j]).0
                        != chosen by {
                        if j > 0 {
                            assert(rest[j - 1].0 != chosen);
                        }
                    }
                },
            }
        }
    }
}

/// An exported buffer has as many planes as the first entry with its arrangement says, and at
/// most four; without such an entry it is refused.
pub proof fn law_exported_planes_are_those_of_the_arrangement(
    modifiers: &[(DrmModifier, u32)],
    chosen: DrmModifier,
    r: Result<u32, Error>,
    at: int,
)
    requires
        call_ensures(export_plane_count, (modifiers, chosen), r),
        0 <= at <= modifiers@.len(),
        at < modifiers@.len() ==> modifiers@[at].0 == chosen,
        forall|j: int| 0 <= j < at ==> (#[trigger] modifiers@[j]).0 != chosen,
    ensures
        r is Ok <==> at < modifiers@.len() && modifiers@[at].1 <= 4,
        r matches Ok(n) ==> n == modifiers@[at].1,
{
    lemma_planes_of(modifiers@, chosen);
    match planes_of(modifiers@, chosen) {
        None => {
            if at < modifiers@.len() {
                assert(modifiers@[at].0 != chosen);
            }
        },
        Some(n) => {
            let i = choose|i: int|
                {
                    &&& 0 <= i < modifiers@.len()
                    &&& #[trigger] modifiers@[i] == (chosen, n)
                    &&& forall|j: int| 0 <= j < i ==> (#[trigger] modifiers@[j]).0 != chosen
                };
            if i < at {
                assert(modifiers@[i].0 != chosen);
            } else if at < i {
                assert(modifiers@[at].0 != chosen);
            }
        },
    }
}

/// A device exports buffers exactly where it has both what that takes.
pub proof fn law_export_takes_both(has_memory_fd: bool, has_modifiers: bool, r: Result<(), Error>)
    requires
        call_ensures(check_export_path, (has_memory_fd, has_modifiers), r),
    ensures
        r is Err <==> !has_memory_fd || !has_modifiers,
{
}

/// The vendor of an arrangement is the highest of its eight bytes.
pub proof fn law_vendor_is_the_highest_byte(
    number: u64,
    modifier: DrmModifier,
    vendor: u8,
    back: u64,
)
    requires
        call_ensures(DrmModifier::from_u64, (number,), modifier),
        call_ensures(DrmModifier::vendor, (modifier,), vendor),
        call_ensures(DrmModifier::as_u64, (modifier,), back),
    ensures
        back == number,
        vendor as u64 == number >> 56,
{
    assert(number / 0x100_0000_0000_0000 == number >> 56) by (bit_vector);
}

} // verus!
