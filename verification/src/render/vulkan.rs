//! Choosing a graphics device, its queue and its memory, and what is known of it.

use vstd::prelude::*;
use vstd::utf8::{encode_scalar, encode_utf8};

use crate::error::{plain_error, DetailView, Error, ErrorCode, ErrorView};
use crate::id::TraceId;
use crate::json::{array_of, JsonFields, JsonValue, JsonView};
use crate::testing::texts;
use crate::text::{decimal, push_decimal, same_text};

pub mod laws;

verus! {

/// The bit of a queue family that can draw.
pub const QUEUE_GRAPHICS_BIT: u32 = 1;

/// The most memory types that a device has.
pub const MAX_MEMORY_TYPES: usize = 32;

/// The name of an extension that buffers are shared through.
pub open spec fn dmabuf_extension(i: int) -> Seq<char> {
    if i == 0 {
        "VK_KHR_external_memory_fd"@
    } else if i == 1 {
        "VK_EXT_external_memory_dma_buf"@
    } else if i == 2 {
        "VK_EXT_image_drm_format_modifier"@
    } else {
        "VK_EXT_queue_family_foreign"@
    }
}

/// The extensions that buffers are shared through.
pub fn dmabuf_device_extensions() -> (r: Vec<String>)
    ensures
        texts(r@) == Seq::new(4, |i: int| dmabuf_extension(i)),
{
    let mut names: Vec<String> = Vec::new();
    names.push("VK_KHR_external_memory_fd".to_owned());
    names.push("VK_EXT_external_memory_dma_buf".to_owned());
    names.push("VK_EXT_image_drm_format_modifier".to_owned());
    names.push("VK_EXT_queue_family_foreign".to_owned());
    assert(texts(names@) =~= Seq::new(4, |i: int| dmabuf_extension(i)));
    names
}

/// Whether a device has every extension that buffers are shared through.
pub open spec fn shares_buffers(advertised: Seq<Seq<char>>) -> bool {
    forall|i: int| 0 <= i < 4 ==> advertised.contains(#[trigger] dmabuf_extension(i))
}

fn lists(names: &[String], name: &str) -> (r: bool)
    ensures
        r == texts(names@).contains(name@),
{
    let mut i: usize = 0;
    while i < names.len()
        invariant
            i <= names.len(),
            forall|j: int| 0 <= j < i ==> texts(names@)[j] != name@,
        decreases names.len() - i,
    {
        if same_text(names[i].as_str(), name) {
            assert(texts(names@)[i as int] == name@);
            return true;
        }
        i = i + 1;
    }
    false
}

/// The extensions to enable: all that buffers are shared through where the device has
/// them all, and otherwise none of them.
pub fn present_dmabuf_extensions(advertised: &[String]) -> (r: Vec<String>)
    ensures
        texts(r@) == (if shares_buffers(texts(advertised@)) {
            Seq::new(4, |i: int| dmabuf_extension(i))
        } else {
            Seq::empty()
        }),
{
    let wanted = dmabuf_device_extensions();
    let mut i: usize = 0;
    while i < wanted.len()
        invariant
            i <= wanted.len(),
            texts(wanted@) == Seq::new(4, |j: int| dmabuf_extension(j)),
            forall|j: int|
                0 <= j < i ==> texts(advertised@).contains(#[trigger] dmabuf_extension(j)),
        decreases wanted.len() - i,
    {
        assert(texts(wanted@).len() == wanted@.len());
        assert(texts(wanted@)[i as int] == wanted@[i as int]@);
        assert(wanted@[i as int]@ == dmabuf_extension(i as int));
        if !lists(advertised, wanted[i].as_str()) {
            assert(!texts(advertised@).contains(dmabuf_extension(i as int)));
            let none: Vec<String> = Vec::new();
            assert(texts(none@) =~= Seq::<Seq<char>>::empty());
            return none;
        }
        i = i + 1;
    }
    assert(wanted@.len() == texts(wanted@).len());
    wanted
}

/// Whether all bits of `wanted` are set in `held`.
pub open spec fn has_bits(held: u32, wanted: u32) -> bool {
    held & wanted == wanted
}

/// Whether bit `i` of `bits` is set.
pub open spec fn bit_is_set(bits: u32, i: u32) -> bool {
    bits & (1u32 << i) != 0
}

/// Whether memory type `i` is allowed and has the wanted properties.
pub open spec fn memory_type_fits(types: Seq<u32>, allowed: u32, wanted: u32, i: int) -> bool {
    bit_is_set(allowed, i as u32) && has_bits(types[i], wanted)
}

/// The error of a device without a memory type that fits.
pub open spec fn no_memory_type_error(allowed: u32, wanted: u32) -> ErrorView {
    plain_error(
        ErrorCode::Unsupported,
        "no Vulkan memory type satisfies the requested constraints"@,
    ).with("allowed_bits"@, DetailView::Int(allowed as int)).with(
        "required_flags"@,
        DetailView::Int(wanted as int),
    )
}

/// Whether no memory type is allowed and has the wanted properties.
pub open spec fn none_fits(types: Seq<u32>, allowed: u32, wanted: u32) -> bool {
    forall|j: int| 0 <= j < types.len() ==> !#[trigger] memory_type_fits(types, allowed, wanted, j)
}

/// The first memory type that is allowed and has the wanted properties.
pub fn find_memory_type(types: &[u32], allowed: u32, wanted: u32) -> (r: Result<u32, Error>)
    requires
        types@.len() <= MAX_MEMORY_TYPES,
    ensures
        r matches Ok(n) ==> {
            &&& n < types@.len()
            &&& memory_type_fits(types@, allowed, wanted, n as int)
            &&& forall|j: int| 0 <= j < n ==> !#[trigger] memory_type_fits(types@, allowed, wanted, j)
        },
        r matches Err(e) ==> {
            &&& e@ == no_memory_type_error(allowed, wanted)
            &&& forall|j: int|
                0 <= j < types@.len() ==> !#[trigger] memory_type_fits(types@, allowed, wanted, j)
        },
        r is Err ==> none_fits(types@, allowed, wanted),
{
    let mut i: usize = 0;
    while i < types.len()
        invariant
            i <= types.len(),
            types@.len() <= MAX_MEMORY_TYPES,
            forall|j: int| 0 <= j < i ==> !#[trigger] memory_type_fits(types@, allowed, wanted, j),
        decreases types.len() - i,
    {
        let bit: u32 = 1u32 << (i as u32);
        if allowed & bit != 0 && types[i] & wanted == wanted {
            assert(memory_type_fits(types@, allowed, wanted, i as int));
            return Ok(i as u32);
        }
        assert(!memory_type_fits(types@, allowed, wanted, i as int));
        i = i + 1;
    }
    Err(
        Error::new(
            ErrorCode::Unsupported,
            "no Vulkan memory type satisfies the requested constraints",
            TraceId::unattributed(),
        ).with_detail("allowed_bits", allowed as i64).with_detail(
            "required_flags",
            wanted as i64,
        ),
    )
}

/// The first queue family that can draw.
pub open spec fn graphics_family(families: Seq<u32>) -> Option<int>
    decreases families.len(),
{
    if families.len() == 0 {
        None
    } else if has_bits(families.first(), QUEUE_GRAPHICS_BIT) {
        Some(0)
    } else {
        match graphics_family(families.drop_first()) {
            Some(i) => Some(i + 1),
            None => None,
        }
    }
}

/// The first queue family that can draw.
pub fn pick_graphics_queue(families: &[u32]) -> (r: Result<u32, Error>)
    requires
        families@.len() <= u32::MAX,
    ensures
        match graphics_family(families@) {
            Some(i) => r is Ok && r->Ok_0 == i,
            None => r is Err && r->Err_0@ == plain_error(
                ErrorCode::CapabilityUnavailable,
                "the Vulkan physical device has no graphics queue family"@,
            ),
        },
{
    let mut i: usize = 0;
    assert(families@.skip(0) =~= families@);
    while i < families.len()
        invariant
            i <= families.len(),
            families@.len() <= u32::MAX,
            graphics_family(families@) == (match graphics_family(families@.skip(i as int)) {
                Some(n) => Some(n + i),
                None => None,
            }),
        decreases families.len() - i,
    {
        assert(families@.skip(i as int).first() == families@[i as int]);
        assert(families@.skip(i as int).drop_first() =~= families@.skip(i as int + 1));
        if families[i] & QUEUE_GRAPHICS_BIT == QUEUE_GRAPHICS_BIT {
            return Ok(i as u32);
        }
        i = i + 1;
    }
    Err(
        Error::new(
            ErrorCode::CapabilityUnavailable,
            "the Vulkan physical device has no graphics queue family",
            TraceId::unattributed(),
        ),
    )
}

/// What a device offers: a queue that draws, sharing of buffers, and being a card of its
/// own.
#[derive(Debug, Clone, Copy, PartialEq, Eq, Structural)]
pub struct DeviceOffer {
    pub graphics_queue: Option<u32>,
    pub shares_buffers: bool,
    pub discrete: bool,
}

impl DeviceOffer {
    /// Whether it is as good as can be.
    pub open spec fn ideal(self) -> bool {
        self.graphics_queue is Some && self.shares_buffers && self.discrete
    }

    /// Whether it draws and shares buffers.
    pub open spec fn shares(self) -> bool {
        self.graphics_queue is Some && self.shares_buffers
    }
}

/// The second choice among the first `count` devices: the last one that shares buffers,
/// and without such a one the first that draws at all.
pub open spec fn second_choice(offers: Seq<DeviceOffer>, count: int) -> Option<int>
    decreases count,
{
    if count <= 0 {
        None
    } else {
        let earlier = second_choice(offers, count - 1);
        let here = offers[count - 1];
        if here.graphics_queue is Some && (earlier is None || here.shares_buffers) {
            Some(count - 1)
        } else {
            earlier
        }
    }
}

/// Whether `at` is the device to take: the first that is as good as can be, and without
/// such a one the second choice.
pub open spec fn device_to_take(offers: Seq<DeviceOffer>, at: int) -> bool {
    &&& 0 <= at < offers.len()
    &&& if exists|i: int| 0 <= i < offers.len() && (#[trigger] offers[i]).ideal() {
        &&& offers[at].ideal()
        &&& forall|j: int| 0 <= j < at ==> !(#[trigger] offers[j]).ideal()
    } else {
        second_choice(offers, offers.len() as int) == Some(at)
    }
}

/// Where there is a second choice, it is among the devices and draws.
proof fn lemma_second_choice(offers: Seq<DeviceOffer>, count: int)
    requires
        0 <= count <= offers.len(),
    ensures
        match second_choice(offers, count) {
            Some(i) => 0 <= i < count && offers[i].graphics_queue is Some,
            None => forall|i: int| 0 <= i < count ==> (#[trigger] offers[i]).graphics_queue is None,
        },
    decreases count,
{
    if count > 0 {
        lemma_second_choice(offers, count - 1);
    }
}

/// The device to take, and its queue.
pub fn pick_physical_device(offers: &[DeviceOffer]) -> (r: Result<(usize, u32), Error>)
    ensures
        r is Ok <==> exists|i: int|
            0 <= i < offers@.len() && (#[trigger] offers@[i]).graphics_queue is Some,
        r matches Ok((at, queue)) ==> device_to_take(offers@, at as int)
            && offers@[at as int].graphics_queue == Some(queue),
        r matches Err(e) ==> e@ == plain_error(
            ErrorCode::CapabilityUnavailable,
            "no Vulkan physical device with a graphics queue was found"@,
        ),
{
    let mut fallback: Option<(usize, u32)> = None;
    let mut i: usize = 0;
    while i < offers.len()
        invariant
            i <= offers.len(),
            forall|j: int| 0 <= j < i ==> !(#[trigger] offers@[j]).ideal(),
            match second_choice(offers@, i as int) {
                Some(n) => match fallback {
                    Some((at, queue)) => at == n && n < i && offers@[n].graphics_queue == Some(
                        queue,
                    ),
                    None => false,
                },
                None => fallback is None,
            },
        decreases offers.len() - i,
    {
        let offer = offers[i];
        if let Some(queue) = offer.graphics_queue {
            if offer.shares_buffers && offer.discrete {
                assert(offers@[i as int].ideal());
                return Ok((i, queue));
            }
            if fallback.is_none() || offer.shares_buffers {
                fallback = Some((i, queue));
            }
        }
        i = i + 1;
    }
    proof {
        lemma_second_choice(offers@, offers@.len() as int);
    }
    match fallback {
        Some(taken) => Ok(taken),
        None => Err(
            Error::new(
                ErrorCode::CapabilityUnavailable,
                "no Vulkan physical device with a graphics queue was found",
                TraceId::unattributed(),
            ),
        ),
    }
}

/// A device that can draw and share buffers is never passed over for one that cannot.
pub proof fn law_sharing_device_is_preferred(offers: Seq<DeviceOffer>, at: int)
    requires
        device_to_take(offers, at),
        exists|i: int| 0 <= i < offers.len() && (#[trigger] offers[i]).shares(),
    ensures
        offers[at].shares(),
{
    if !(exists|i: int| 0 <= i < offers.len() && (#[trigger] offers[i]).ideal()) {
        let i = choose|i: int| 0 <= i < offers.len() && (#[trigger] offers[i]).shares();
        lemma_second_choice_shares(offers, offers.len() as int, i);
    }
}

proof fn lemma_second_choice_shares(offers: Seq<DeviceOffer>, count: int, i: int)
    requires
        0 <= i < count <= offers.len(),
        offers[i].shares(),
    ensures
        second_choice(offers, count) is Some,
        offers[second_choice(offers, count)->0].shares(),
    decreases count,
{
    if i < count - 1 {
        lemma_second_choice_shares(offers, count - 1, i);
    }
}

/// `ash::vk::api_version_major`: seven bits of a packed version.
pub assume_specification[ ash::vk::api_version_major ](version: u32) -> (r: u32)
    ensures
        r == (version >> 22u32) & 0x7fu32,
;

/// `ash::vk::api_version_minor`: ten bits of a packed version.
pub assume_specification[ ash::vk::api_version_minor ](version: u32) -> (r: u32)
    ensures
        r == (version >> 12u32) & 0x3ffu32,
;

/// `ash::vk::api_version_patch`: the last twelve bits of a packed version.
pub assume_specification[ ash::vk::api_version_patch ](version: u32) -> (r: u32)
    ensures
        r == version & 0xfffu32,
;

/// A version of three numbers.
pub open spec fn version_text(major: nat, minor: nat, patch: nat) -> Seq<char> {
    decimal(major) + "."@ + decimal(minor) + "."@ + decimal(patch)
}

fn push_version(major: u64, minor: u64, patch: u64) -> (r: String)
    ensures
        r@ == version_text(major as nat, minor as nat, patch as nat),
{
    let mut out = String::new();
    push_decimal(&mut out, major);
    out.append(".");
    push_decimal(&mut out, minor);
    out.append(".");
    push_decimal(&mut out, patch);
    assert(out@ =~= version_text(major as nat, minor as nat, patch as nat));
    out
}

/// A packed version of the graphics interface, written out.
pub fn api_version_text(version: u32) -> (r: String)
    ensures
        r@ == version_text(
            ((version >> 22u32) & 0x7fu32) as nat,
            ((version >> 12u32) & 0x3ffu32) as nat,
            (version & 0xfffu32) as nat,
        ),
{
    push_version(
        ash::vk::api_version_major(version) as u64,
        ash::vk::api_version_minor(version) as u64,
        ash::vk::api_version_patch(version) as u64,
    )
}

/// A version that a runtime names.
#[derive(Debug, Clone, Copy, PartialEq, Eq, Structural)]
pub struct RuntimeVersion {
    pub major: u16,
    pub minor: u16,
    pub patch: u32,
}

impl RuntimeVersion {
    /// The version as text.
    pub open spec fn text(self) -> Seq<char> {
        version_text(self.major as nat, self.minor as nat, self.patch as nat)
    }

    /// Whether this version comes after 1.1.0.
    pub open spec fn after_1_1(self) -> bool {
        self.major > 1 || (self.major == 1 && (self.minor > 1 || (self.minor == 1 && self.patch
            > 0)))
    }
}

/// Whether a runtime takes version 1.1 of the graphics interface: it must not ask for
/// more, and its newest major version must be one or more.
pub fn check_vulkan_1_1(min: RuntimeVersion, max: RuntimeVersion) -> (r: Result<(), Error>)
    ensures
        r is Ok <==> !min.after_1_1() && max.major >= 1,
        r matches Err(e) ==> e@ == plain_error(
            ErrorCode::Unsupported,
            "the OpenXR runtime does not accept Vulkan 1.1 for this system"@,
        ).with("min_api_version"@, DetailView::Text(min.text())).with(
            "max_api_version"@,
            DetailView::Text(max.text()),
        ),
{
    let beyond = min.major > 1 || (min.major == 1 && (min.minor > 1 || (min.minor == 1 && min.patch
        > 0)));
    if beyond || max.major < 1 {
        return Err(
            Error::new(
                ErrorCode::Unsupported,
                "the OpenXR runtime does not accept Vulkan 1.1 for this system",
                TraceId::unattributed(),
            ).with_detail(
                "min_api_version",
                push_version(min.major as u64, min.minor as u64, min.patch as u64),
            ).with_detail(
                "max_api_version",
                push_version(max.major as u64, max.minor as u64, max.patch as u64),
            ),
        );
    }
    Ok(())
}

/// Whether the first zero byte stands at `at`.
pub open spec fn first_zero(bytes: Seq<u8>, at: int) -> bool {
    &&& 0 <= at < bytes.len()
    &&& bytes[at] == 0
    &&& forall|i: int| 0 <= i < at ==> #[trigger] bytes[i] != 0
}

/// The error of a name with a zero byte at `at`. Its cause says where the byte stands.
pub open spec fn zero_byte_error(at: nat) -> ErrorView {
    plain_error(
        ErrorCode::InvalidArgument,
        "a name passed to Vulkan contained an interior NUL byte"@,
    ).because("nul byte found in provided data at position: "@ + decimal(at))
}

proof fn lemma_bytes_of_a_character(c: char)
    ensures
        encode_scalar(c as u32).contains(0) <==> c == '\0',
{
    let v = c as u32;
    let bytes = encode_scalar(v);
    assert(v <= 0x7f ==> (((v & 0x7f) as u8 == 0) == (v == 0))) by (bit_vector);
    assert(0xc0u8 | ((v >> 6) & 0x1f) as u8 != 0) by (bit_vector);
    assert(0xe0u8 | ((v >> 12) & 0x0f) as u8 != 0) by (bit_vector);
    assert(0xf0u8 | ((v >> 18) & 0x7) as u8 != 0) by (bit_vector);
    assert(0x80u8 | (v & 0x3f) as u8 != 0) by (bit_vector);
    assert(0x80u8 | ((v >> 6) & 0x3f) as u8 != 0) by (bit_vector);
    assert(0x80u8 | ((v >> 12) & 0x3f) as u8 != 0) by (bit_vector);
    if v == 0 {
        assert(bytes[0] == 0);
    }
}

/// A text holds a zero byte exactly where it holds a zero character.
proof fn lemma_zero_byte_is_a_zero_character(chars: Seq<char>)
    ensures
        encode_utf8(chars).contains(0) <==> chars.contains('\0'),
    decreases chars.len(),
{
    if chars.len() > 0 {
        let first = encode_scalar(chars[0] as u32);
        let rest = encode_utf8(chars.drop_first());
        lemma_bytes_of_a_character(chars[0]);
        lemma_zero_byte_is_a_zero_character(chars.drop_first());
        assert(chars =~= seq![chars[0]] + chars.drop_first());
        vstd::seq_lib::lemma_seq_concat_contains_all_elements(first, rest, 0u8);
        vstd::seq_lib::lemma_seq_concat_contains_all_elements(
            seq![chars[0]],
            chars.drop_first(),
            '\0',
        );
        assert(seq![chars[0]].contains('\0') <==> chars[0] == '\0') by {
            assert(seq![chars[0]][0] == chars[0]);
        }
    }
}

/// Whether a name can be handed to the graphics interface: it holds no zero character.
pub fn check_c_name(name: &str) -> (r: Result<(), Error>)
    ensures
        r is Ok <==> !name@.contains('\0'),
        r matches Err(e) ==> exists|at: int| #[trigger]
            first_zero(encode_utf8(name@), at) && e@ == zero_byte_error(at as nat),
{
    let bytes = name.as_bytes();
    let mut i: usize = 0;
    while i < bytes.len()
        invariant
            i <= bytes.len(),
            bytes@ == encode_utf8(name@),
            forall|j: int| 0 <= j < i ==> #[trigger] bytes@[j] != 0,
        decreases bytes.len() - i,
    {
        if bytes[i] == 0 {
            assert(first_zero(encode_utf8(name@), i as int));
            assert(encode_utf8(name@).contains(0));
            proof {
                lemma_zero_byte_is_a_zero_character(name@);
            }
            let mut cause = "nul byte found in provided data at position: ".to_owned();
            push_decimal(&mut cause, i as u64);
            return Err(
                Error::new(
                    ErrorCode::InvalidArgument,
                    "a name passed to Vulkan contained an interior NUL byte",
                    TraceId::unattributed(),
                ).caused_by(cause.as_str()),
            );
        }
        i = i + 1;
    }
    proof {
        lemma_zero_byte_is_a_zero_character(name@);
    }
    Ok(())
}

/// The name that a device is shown under, where it has none of its own too.
pub fn device_name(name: Option<String>) -> (r: String)
    ensures
        r@ == (match name {
            Some(n) => n@,
            None => "<unnamed>"@,
        }),
{
    match name {
        Some(n) => n,
        None => "<unnamed>".to_owned(),
    }
}

/// The error of a loader that could not be opened.
pub fn loader_missing(cause: &str) -> (r: Error)
    ensures
        r@ == plain_error(
            ErrorCode::CapabilityUnavailable,
            "the Vulkan loader could not be opened at run time"@,
        ).because(cause@),
{
    Error::new(
        ErrorCode::CapabilityUnavailable,
        "the Vulkan loader could not be opened at run time",
        TraceId::unattributed(),
    ).caused_by(cause)
}

/// What `ash::vk::Result` writes for the raw code `raw`.
pub uninterp spec fn vk_result_name(raw: i32) -> Seq<char>;

/// `ash::vk::Result::from_raw`, written out by its `Debug`: a text that rests on the code
/// alone.
#[verifier::external_body]
fn name_vk_result(raw: i32) -> (r: String)
    ensures
        r@ == vk_result_name(raw),
{
    format!("{:?}", ash::vk::Result::from_raw(raw))
}

/// What `openxr::sys::Result` writes for the raw code `raw`.
pub uninterp spec fn xr_result_name(raw: i32) -> Seq<char>;

/// `openxr::sys::Result::from_raw`, written out by its `Debug`: a text that rests on the
/// code alone.
#[verifier::external_body]
fn name_xr_result(raw: i32) -> (r: String)
    ensures
        r@ == xr_result_name(raw),
{
    format!("{:?}", openxr::sys::Result::from_raw(raw))
}

/// The error of a call that the host refused with a code that has a name.
pub open spec fn refusal(
    message: Seq<char>,
    code_key: Seq<char>,
    raw: i32,
    name_key: Seq<char>,
    name: Seq<char>,
) -> ErrorView {
    plain_error(ErrorCode::HostRefused, message).with(code_key, DetailView::Int(raw as int)).with(
        name_key,
        DetailView::Text(name),
    )
}

/// The error of a call that the host refused, given the name of its code.
pub fn refused_call(message: &str, code_key: &str, raw: i32, name_key: &str, name: &str) -> (r:
    Error)
    ensures
        r@ == refusal(message@, code_key@, raw, name_key@, name@),
{
    Error::new(ErrorCode::HostRefused, message, TraceId::unattributed()).with_detail(
        code_key,
        raw as i64,
    ).with_detail(name_key, name)
}

/// The error of a call of the graphics interface that failed.
pub fn vulkan_failure(message: &str, raw: i32) -> (r: Error)
    ensures
        r@ == refusal(message@, "vk_result"@, raw, "vk_result_name"@, vk_result_name(raw)),
{
    let name = name_vk_result(raw);
    refused_call(message, "vk_result", raw, "vk_result_name", name.as_str())
}

/// The error of a call of the runtime that failed.
pub fn openxr_failure(message: &str, raw: i32) -> (r: Error)
    ensures
        r@ == refusal(message@, "xr_result"@, raw, "xr_result_name"@, xr_result_name(raw)),
{
    let name = name_xr_result(raw);
    refused_call(message, "xr_result", raw, "xr_result_name", name.as_str())
}

/// What is known of a graphics device.
#[derive(Debug)]
pub struct VulkanDeviceFacts {
    pub device_name: String,
    pub api_version: String,
    pub driver_version: u32,
    pub queue_family_index: u32,
    pub advertised_device_extension_count: usize,
    pub dmabuf_extensions_present: bool,
    pub enabled_device_extensions: Vec<String>,
}

/// The texts as JSON values.
pub open spec fn text_values(items: Seq<Seq<char>>) -> Seq<JsonView> {
    Seq::new(items.len(), |i: int| JsonView::Text(items[i]))
}

/// The texts as a JSON array.
pub fn text_array(items: &[String]) -> (r: JsonValue)
    ensures
        r@ == JsonView::Array(text_values(texts(items@))),
{
    let mut values: Vec<JsonValue> = Vec::new();
    let mut i: usize = 0;
    while i < items.len()
        invariant
            i <= items.len(),
            values@.len() == i,
            forall|j: int| 0 <= j < i ==> (#[trigger] values@[j])@ == JsonView::Text(items@[j]@),
        decreases items.len() - i,
    {
        values.push(JsonValue::text(items[i].as_str()));
        i = i + 1;
    }
    assert(Seq::new(values@.len(), |j: int| values@[j]@) =~= text_values(texts(items@)));
    array_of(values)
}

impl VulkanDeviceFacts {
    /// What is known of a device, given what it says of itself and which extensions were
    /// enabled.
    pub fn of(
        name: Option<String>,
        api_version: u32,
        driver_version: u32,
        queue_family_index: u32,
        advertised_device_extension_count: usize,
        enabled: Vec<String>,
    ) -> (r: Self)
        ensures
            r.device_name@ == (match name {
                Some(n) => n@,
                None => "<unnamed>"@,
            }),
            r.api_version@ == version_text(
                ((api_version >> 22u32) & 0x7fu32) as nat,
                ((api_version >> 12u32) & 0x3ffu32) as nat,
                (api_version & 0xfffu32) as nat,
            ),
            r.driver_version == driver_version,
            r.queue_family_index == queue_family_index,
            r.advertised_device_extension_count == advertised_device_extension_count,
            r.dmabuf_extensions_present == shares_buffers(texts(enabled@)),
            r.enabled_device_extensions == enabled,
    {
        let names = present_dmabuf_extensions(enabled.as_slice());
        assert(texts(names@).len() == names@.len());
        let present = names.len() > 0;
        VulkanDeviceFacts {
            device_name: device_name(name),
            api_version: api_version_text(api_version),
            driver_version,
            queue_family_index,
            advertised_device_extension_count,
            dmabuf_extensions_present: present,
            enabled_device_extensions: enabled,
        }
    }

    /// Whether buffers can be shared with the device.
    pub fn supports_dmabuf_import(&self) -> (r: bool)
        ensures
            r == self.dmabuf_extensions_present,
    {
        self.dmabuf_extensions_present
    }

    /// The fields of [`VulkanDeviceFacts::to_json`].
    pub open spec fn fields(self) -> Seq<(Seq<char>, JsonView)> {
        seq![
            ("device_name"@, JsonView::Text(self.device_name@)),
            ("api_version"@, JsonView::Text(self.api_version@)),
            ("driver_version"@, JsonView::Int(self.driver_version as int)),
            ("queue_family_index"@, JsonView::Int(self.queue_family_index as int)),
            (
                "advertised_device_extension_count"@,
                JsonView::Int(self.advertised_device_extension_count as i64 as int),
            ),
            ("dmabuf_extensions_present"@, JsonView::Bool(self.dmabuf_extensions_present)),
            (
                "enabled_device_extensions"@,
                JsonView::Array(text_values(texts(self.enabled_device_extensions@))),
            ),
        ]
    }

    /// What is known of the device, as JSON.
    pub fn to_json(&self) -> (r: JsonValue)
        ensures
            r@ == JsonView::Object(self.fields()),
    {
        let fields = JsonFields::new().with(
            "device_name",
            JsonValue::text(self.device_name.as_str()),
        ).with("api_version", JsonValue::text(self.api_version.as_str())).with(
            "driver_version",
            JsonValue::number(self.driver_version as i64),
        ).with("queue_family_index", JsonValue::number(self.queue_family_index as i64)).with(
            "advertised_device_extension_count",
            JsonValue::number(self.advertised_device_extension_count as i64),
        ).with("dmabuf_extensions_present", JsonValue::boolean(self.dmabuf_extensions_present)).with(
            "enabled_device_extensions",
            text_array(self.enabled_device_extensions.as_slice()),
        );
        assert(fields@ =~= self.fields());
        fields.into_object()
    }
}

} // verus!
