//! Which device, queue and memory are taken, told by what is offered.

use vstd::prelude::*;

use super::{
    api_version_text, bit_is_set, check_c_name, check_vulkan_1_1, device_name,
    dmabuf_extension, find_memory_type, graphics_family, memory_type_fits,
    pick_graphics_queue, pick_physical_device, present_dmabuf_extensions, second_choice,
    DeviceOffer, RuntimeVersion, VulkanDeviceFacts,
};
use crate::display::hyprland::laws::{lemma_decimal_is_spelled, spells};
use crate::error::Error;
use crate::testing::texts;

verus! {

/// The extensions for shared buffers are enabled all four or not at all: all where the device
/// has each of them, by these names.
pub proof fn law_sharing_extensions_are_enabled_together(
    advertised: &[String],
    r: Vec<String>,
)
    requires
        call_ensures(present_dmabuf_extensions, (advertised,), r),
    ensures
        ({
            let has = texts(advertised@);
            let all = has.contains("VK_KHR_external_memory_fd"@) && has.contains(
                "VK_EXT_external_memory_dma_buf"@,
            ) && has.contains("VK_EXT_image_drm_format_modifier"@) && has.contains(
                "VK_EXT_queue_family_foreign"@,
            );
            &&& all ==> texts(r@) == seq![
                "VK_KHR_external_memory_fd"@,
                "VK_EXT_external_memory_dma_buf"@,
                "VK_EXT_image_drm_format_modifier"@,
                "VK_EXT_queue_family_foreign"@,
            ]
            &&& !all ==> r@.len() == 0
        }),
{
    let has = texts(advertised@);
    let names = seq![
        "VK_KHR_external_memory_fd"@,
        "VK_EXT_external_memory_dma_buf"@,
        "VK_EXT_image_drm_format_modifier"@,
        "VK_EXT_queue_family_foreign"@,
    ];
    assert(texts(r@).len() == r@.len());
    assert(names[0] == dmabuf_extension(0) && names[1] == dmabuf_extension(1));
    assert(names[2] == dmabuf_extension(2) && names[3] == dmabuf_extension(3));
    if super::shares_buffers(has) {
        assert(has.contains(dmabuf_extension(0)) && has.contains(dmabuf_extension(1)));
        assert(has.contains(dmabuf_extension(2)) && has.contains(dmabuf_extension(3)));
        assert(texts(r@) =~= names);
    }
}

proof fn lemma_bit(bits: u32, i: u32)
    requires
        i < 32,
    ensures
        bit_is_set(bits, i) <==> (bits >> i) % 2 == 1,
{
    assert((bits & (1u32 << i) != 0) <==> (bits >> i) % 2 == 1) by (bit_vector)
        requires
            i < 32,
    ;
}

proof fn lemma_none_fits(types: &[u32], allowed: u32, wanted: u32, r: Result<u32, Error>)
    requires
        types@.len() <= 32,
        call_ensures(find_memory_type, (types, allowed, wanted), r),
        r is Err,
    ensures
        forall|j: int|
            0 <= j < types@.len() ==> !#[trigger] memory_type_fits(types@, allowed, wanted, j),
{
    assert(super::none_fits(types@, allowed, wanted));
}

/// The memory type that is taken is the first of those that are allowed, by the bit with its
/// number, and that have every wanted property; there is none exactly where none is so.
pub proof fn law_first_fitting_memory_is_taken(
    types: &[u32],
    allowed: u32,
    wanted: u32,
    r: Result<u32, Error>,
)
    requires
        types@.len() <= 32,
        call_ensures(find_memory_type, (types, allowed, wanted), r),
    ensures
        r matches Ok(n) ==> {
            &&& n < types@.len()
            &&& (allowed >> n) % 2 == 1
            &&& types@[n as int] & wanted == wanted
            &&& forall|j: u32|
                j < n ==> !((#[trigger] (allowed >> j)) % 2 == 1 && types@[j as int] & wanted
                    == wanted)
        },
        r is Err <==> forall|j: u32|
            j < types@.len() ==> !((#[trigger] (allowed >> j)) % 2 == 1 && types@[j as int] & wanted
                == wanted),
{
    assert forall|j: u32| j < types@.len() implies ((#[trigger] (allowed >> j)) % 2 == 1
        && types@[j as int] & wanted == wanted <==> memory_type_fits(
        types@,
        allowed,
        wanted,
        j as int,
    )) by {
        lemma_bit(allowed, j);
    }
    match r {
        Ok(n) => {
            assert(memory_type_fits(types@, allowed, wanted, n as int));
            lemma_bit(allowed, n);
            assert forall|j: u32| j < n implies !((#[trigger] (allowed >> j)) % 2 == 1
                && types@[j as int] & wanted == wanted) by {
                assert(!memory_type_fits(types@, allowed, wanted, j as int));
            }
            assert((allowed >> n) % 2 == 1 && types@[n as int] & wanted == wanted);
        },
        Err(e) => {
            lemma_none_fits(types, allowed, wanted, r);
            assert forall|j: u32| j < types@.len() implies !((#[trigger] (allowed >> j)) % 2 == 1
                && types@[j as int] & wanted == wanted) by {
                assert(!memory_type_fits(types@, allowed, wanted, j as int));
            }
        },
    }
}

proof fn lemma_graphics_family(families: Seq<u32>)
    ensures
        match graphics_family(families) {
            Some(i) => {
                &&& 0 <= i < families.len()
                &&& families[i] % 2 == 1
                &&& forall|j: int| 0 <= j < i ==> (#[trigger] families[j]) % 2 == 0
            },
            None => forall|j: int| 0 <= j < families.len() ==> (#[trigger] families[j]) % 2 == 0,
        },
    decreases families.len(),
{
    if families.len() > 0 {
        let first = families[0];
        assert((first & 1 == 1) <==> first % 2 == 1) by (bit_vector);
        assert(first % 2 == 0 || first % 2 == 1);
        let rest = families.drop_first();
        lemma_graphics_family(rest);
        if first % 2 == 0 {
            assert forall|j: int|
                1 <= j < families.len() implies #[trigger] families[j] == rest[j - 1] by {}
            match graphics_family(rest) {
                Some(i) => {
                    assert(families[i + 1] == rest[i]);
                    assert forall|j: int| 0 <= j < i + 1 implies (#[trigger] families[j]) % 2
                        == 0 by {
                        if j > 0 {
                            assert(rest[j - 1] % 2 == 0);
                        }
                    }
                },
                None => {
                    assert forall|j: int| 0 <= j < families.len() implies (
                    #[trigger] families[j]) % 2 == 0 by {
                        if j > 0 {
                            assert(rest[j - 1] % 2 == 0);
                        }
                    }
                },
            }
        }
    }
}

/// The queue family that is taken is the first whose lowest bit says that it draws.
pub proof fn law_first_drawing_queue_is_taken(families: &[u32], r: Result<u32, Error>)
    requires
        families@.len() <= u32::MAX,
        call_ensures(pick_graphics_queue, (families,), r),
    ensures
        r matches Ok(i) ==> {
            &&& i < families@.len()
            &&& families@[i as int] % 2 == 1
            &&& forall|j: int| 0 <= j < i ==> (#[trigger] families@[j]) % 2 == 0
        },
        r is Err <==> forall|j: int|
            0 <= j < families@.len() ==> (#[trigger] families@[j]) % 2 == 0,
{
    lemma_graphics_family(families@);
}

proof fn lemma_second_choice_is(offers: Seq<DeviceOffer>, count: int)
    requires
        0 <= count <= offers.len(),
    ensures
        match second_choice(offers, count) {
            None => forall|i: int| 0 <= i < count ==> (#[trigger] offers[i]).graphics_queue is None,
            Some(at) => {
                &&& 0 <= at < count
                &&& offers[at].graphics_queue is Some
                &&& offers[at].shares_buffers ==> forall|j: int|
                    at < j < count ==> !((#[trigger] offers[j]).graphics_queue is Some
                        && offers[j].shares_buffers)
                &&& !offers[at].shares_buffers ==> (forall|j: int|
                    0 <= j < count ==> !((#[trigger] offers[j]).graphics_queue is Some
                        && offers[j].shares_buffers)) && (forall|j: int|
                    0 <= j < at ==> (#[trigger] offers[j]).graphics_queue is None)
            },
        },
    decreases count,
{
    if count > 0 {
        lemma_second_choice_is(offers, count - 1);
    }
}

/// The device that is taken draws, with its own queue. Where some devices draw, share buffers
/// and are cards of their own, it is the first of these; else, where some draw and share
/// buffers, the last of these; else the first that draws. There is none exactly where none
/// draws.
pub proof fn law_best_device_is_taken(offers: &[DeviceOffer], r: Result<(usize, u32), Error>)
    requires
        call_ensures(pick_physical_device, (offers,), r),
    ensures
        r is Err <==> forall|i: int|
            0 <= i < offers@.len() ==> (#[trigger] offers@[i]).graphics_queue is None,
        r matches Ok((at, queue)) ==> {
            let taken = offers@[at as int];
            &&& at < offers@.len()
            &&& taken.graphics_queue == Some(queue)
            &&& taken.shares_buffers && taken.discrete ==> forall|j: int|
                0 <= j < at ==> !((#[trigger] offers@[j]).graphics_queue is Some
                    && offers@[j].shares_buffers && offers@[j].discrete)
            &&& !(taken.shares_buffers && taken.discrete) ==> forall|j: int|
                0 <= j < offers@.len() ==> !((#[trigger] offers@[j]).graphics_queue is Some
                    && offers@[j].shares_buffers && offers@[j].discrete)
            &&& taken.shares_buffers && !taken.discrete ==> forall|j: int|
                at < j < offers@.len() ==> !((#[trigger] offers@[j]).graphics_queue is Some
                    && offers@[j].shares_buffers)
            &&& !taken.shares_buffers ==> (forall|j: int|
                0 <= j < offers@.len() ==> !((#[trigger] offers@[j]).graphics_queue is Some
                    && offers@[j].shares_buffers)) && (forall|j: int|
                0 <= j < at ==> (#[trigger] offers@[j]).graphics_queue is None)
        },
{
    let all = offers@;
    lemma_second_choice_is(all, all.len() as int);
    if let Ok((at, queue)) = r {
        let at = at as int;
        if exists|i: int| 0 <= i < all.len() && (#[trigger] all[i]).ideal() {
            assert(all[at].ideal());
            assert forall|j: int| 0 <= j < at implies !((#[trigger] all[j]).graphics_queue is Some
                && all[j].shares_buffers && all[j].discrete) by {
                assert(!all[j].ideal());
            }
        } else {
            assert forall|j: int|
                0 <= j < all.len() implies !((#[trigger] all[j]).graphics_queue is Some
                && all[j].shares_buffers && all[j].discrete) by {
                assert(!all[j].ideal());
            }
        }
    }
}

/// A packed version is written out as its three numbers with points between them.
pub proof fn law_version_is_written_out(version: u32, r: String)
    requires
        call_ensures(api_version_text, (version,), r),
    ensures
        exists|major: Seq<char>, minor: Seq<char>, patch: Seq<char>|
            {
                &&& #[trigger] spells(major, (version / 0x40_0000 % 0x80) as nat)
                &&& #[trigger] spells(minor, (version / 0x1000 % 0x400) as nat)
                &&& #[trigger] spells(patch, (version % 0x1000) as nat)
                &&& r@ == major + "."@ + minor + "."@ + patch
            },
{
    assert((version >> 22u32) & 0x7fu32 == version / 0x40_0000 % 0x80) by (bit_vector);
    assert((version >> 12u32) & 0x3ffu32 == version / 0x1000 % 0x400) by (bit_vector);
    assert(version & 0xfffu32 == version % 0x1000) by (bit_vector);
    let major = (version / 0x40_0000 % 0x80) as nat;
    let minor = (version / 0x1000 % 0x400) as nat;
    let patch = (version % 0x1000) as nat;
    lemma_decimal_is_spelled(major);
    lemma_decimal_is_spelled(minor);
    lemma_decimal_is_spelled(patch);
    assert(spells(crate::text::decimal(major), major));
    assert(spells(crate::text::decimal(minor), minor));
    assert(spells(crate::text::decimal(patch), patch));
}

/// A runtime is taken exactly where the least version that it asks for is not beyond 1.1.0
/// and the newest that it knows has a major number.
pub proof fn law_runtime_takes_one_point_one(
    min: RuntimeVersion,
    max: RuntimeVersion,
    r: Result<(), Error>,
)
    requires
        call_ensures(check_vulkan_1_1, (min, max), r),
    ensures
        r is Ok <==> max.major > 0 && {
            ||| min.major == 0
            ||| min.major == 1 && min.minor == 0
            ||| min.major == 1 && min.minor == 1 && min.patch == 0
        },
{
}

/// What is known of a device is what it said; it shares buffers exactly where all four
/// extensions for that were enabled.
pub proof fn law_device_is_known_as_it_said(
    name: Option<String>,
    api_version: u32,
    driver_version: u32,
    queue_family_index: u32,
    count: usize,
    enabled: Vec<String>,
    r: VulkanDeviceFacts,
    shares: bool,
    version: String,
)
    requires
        call_ensures(
            VulkanDeviceFacts::of,
            (name, api_version, driver_version, queue_family_index, count, enabled),
            r,
        ),
        call_ensures(VulkanDeviceFacts::supports_dmabuf_import, (&r,), shares),
        call_ensures(api_version_text, (api_version,), version),
    ensures
        name matches Some(n) ==> r.device_name@ == n@,
        name is None ==> r.device_name@ == "<unnamed>"@,
        r.api_version@ == version@,
        r.driver_version == driver_version,
        r.queue_family_index == queue_family_index,
        r.advertised_device_extension_count == count,
        r.enabled_device_extensions == enabled,
        ({
            let has = texts(enabled@);
            shares <==> has.contains("VK_KHR_external_memory_fd"@) && has.contains(
                "VK_EXT_external_memory_dma_buf"@,
            ) && has.contains("VK_EXT_image_drm_format_modifier"@) && has.contains(
                "VK_EXT_queue_family_foreign"@,
            )
        }),
{
    let has = texts(enabled@);
    assert(dmabuf_extension(0) == "VK_KHR_external_memory_fd"@);
    assert(dmabuf_extension(1) == "VK_EXT_external_memory_dma_buf"@);
    assert(dmabuf_extension(2) == "VK_EXT_image_drm_format_modifier"@);
    assert(dmabuf_extension(3) == "VK_EXT_queue_family_foreign"@);
    if super::shares_buffers(has) {
        assert(has.contains(dmabuf_extension(0)) && has.contains(dmabuf_extension(1)));
        assert(has.contains(dmabuf_extension(2)) && has.contains(dmabuf_extension(3)));
    }
}

/// A name is handed on exactly where no character of it is the zero character.
pub proof fn law_name_without_zero_is_handed_on(name: &str, r: Result<(), Error>)
    requires
        call_ensures(check_c_name, (name,), r),
    ensures
        r is Ok <==> forall|i: int| 0 <= i < name@.len() ==> #[trigger] name@[i] != '\0',
{
    if r is Ok {
        assert forall|i: int| 0 <= i < name@.len() implies #[trigger] name@[i] != '\0' by {
            assert(name@.contains(name@[i]));
        }
    }
}

} // verus!
