//! Buffers of the graphics device: their formats, and what it takes to import and to export
//! one.

use vstd::arithmetic::div_mod::lemma_fundamental_div_mod_converse;
use vstd::prelude::*;

use crate::error::{plain_error, DetailView, Error, ErrorCode, ErrorView};
use crate::frame::PixelFormat;
use crate::id::TraceId;
use crate::render::vulkan::{
    find_memory_type, has_bits, memory_type_fits, no_memory_type_error, MAX_MEMORY_TYPES,
};

pub mod laws;

verus! {

/// The number of the format with four bytes of blue, green, red and opacity, each linear.
pub const VK_FORMAT_B8G8R8A8_UNORM: i32 = 44;

/// The same bytes, with colour in the curve of a screen.
pub const VK_FORMAT_B8G8R8A8_SRGB: i32 = 50;

/// The number of the format with four bytes of red, green, blue and opacity, each linear.
pub const VK_FORMAT_R8G8B8A8_UNORM: i32 = 37;

/// The same bytes, with colour in the curve of a screen.
pub const VK_FORMAT_R8G8B8A8_SRGB: i32 = 43;

/// Four characters as one number, the first in the lowest byte.
pub open spec fn fourcc_code(a: u8, b: u8, c: u8, d: u8) -> int {
    a + b * 0x100 + c * 0x1_0000 + d * 0x100_0000
}

/// Four characters as one number, the first in the lowest byte.
pub fn fourcc(a: u8, b: u8, c: u8, d: u8) -> (r: u32)
    ensures
        r == fourcc_code(a, b, c, d),
{
    a as u32 + b as u32 * 0x100 + c as u32 * 0x1_0000 + d as u32 * 0x100_0000
}

/// The four characters of a number, the lowest byte first.
pub open spec fn fourcc_text(code: u32) -> Seq<char> {
    seq![
        (code % 0x100) as char,
        (code / 0x100 % 0x100) as char,
        (code / 0x1_0000 % 0x100) as char,
        (code / 0x100_0000) as char,
    ]
}

/// A number is spelled by the characters that it was made of.
pub proof fn law_fourcc_spells_its_characters(a: u8, b: u8, c: u8, d: u8)
    ensures
        fourcc_text(fourcc_code(a, b, c, d) as u32) == seq![
            a as char,
            b as char,
            c as char,
            d as char,
        ],
{
    let code = fourcc_code(a, b, c, d);
    let (ai, bi, ci, di) = (a as int, b as int, c as int, d as int);
    let top3 = bi + ci * 0x100 + di * 0x1_0000;
    let top2 = ci + di * 0x100;
    lemma_fundamental_div_mod_converse(code, 0x100, top3, ai);
    lemma_fundamental_div_mod_converse(top3, 0x100, top2, bi);
    lemma_fundamental_div_mod_converse(top2, 0x100, di, ci);
    lemma_fundamental_div_mod_converse(code, 0x1_0000, top2, ai + bi * 0x100);
    lemma_fundamental_div_mod_converse(code, 0x100_0000, di, ai + bi * 0x100 + ci * 0x1_0000);
}

/// A pixel layout, by its number.
#[derive(Debug, Clone, Copy, PartialEq, Eq, Hash, Structural)]
pub struct DrmFormat(u32);

/// The number of `XR24`: blue, green, red and a byte that is ignored.
pub const DRM_FORMAT_XRGB8888: u32 = 0x3432_5258;

/// The number of `AR24`: blue, green, red and opacity.
pub const DRM_FORMAT_ARGB8888: u32 = 0x3432_5241;

/// The format of the graphics interface for a pixel layout, where there is one.
pub open spec fn vk_format_of(code: u32) -> Option<i32> {
    if code == DRM_FORMAT_XRGB8888 || code == DRM_FORMAT_ARGB8888 {
        Some(VK_FORMAT_B8G8R8A8_UNORM)
    } else {
        None
    }
}

/// The number of the pixel layout of a frame.
pub open spec fn code_of(format: PixelFormat) -> u32 {
    match format {
        PixelFormat::Xrgb8888 => DRM_FORMAT_XRGB8888,
        PixelFormat::Argb8888 => DRM_FORMAT_ARGB8888,
    }
}

impl DrmFormat {
    /// The number.
    pub closed spec fn code(self) -> u32 {
        self.0
    }

    /// `XR24`.
    pub fn xrgb8888() -> (r: Self)
        ensures
            r.code() == DRM_FORMAT_XRGB8888,
    {
        DrmFormat(DRM_FORMAT_XRGB8888)
    }

    /// `AR24`.
    pub fn argb8888() -> (r: Self)
        ensures
            r.code() == DRM_FORMAT_ARGB8888,
    {
        DrmFormat(DRM_FORMAT_ARGB8888)
    }

    /// The number.
    pub fn as_u32(self) -> (r: u32)
        ensures
            r == self.code(),
    {
        self.0
    }

    /// The layout with any number.
    pub fn from_u32(value: u32) -> (r: Self)
        ensures
            r.code() == value,
    {
        DrmFormat(value)
    }

    /// The four characters.
    pub fn as_fourcc_string(self) -> (r: String)
        ensures
            r@ == fourcc_text(self.code()),
    {
        let mut out = String::new();
        out.push((self.0 % 0x100) as u8 as char);
        out.push((self.0 / 0x100 % 0x100) as u8 as char);
        out.push((self.0 / 0x1_0000 % 0x100) as u8 as char);
        out.push((self.0 / 0x100_0000) as u8 as char);
        assert(out@ =~= fourcc_text(self.code()));
        out
    }

    /// The format of the graphics interface, where there is one.
    pub fn to_vk_format(self) -> (r: Option<i32>)
        ensures
            r == vk_format_of(self.code()),
    {
        if self.0 == DRM_FORMAT_XRGB8888 || self.0 == DRM_FORMAT_ARGB8888 {
            Some(VK_FORMAT_B8G8R8A8_UNORM)
        } else {
            None
        }
    }

    /// The layout of a frame.
    pub fn from_pixel_format(format: PixelFormat) -> (r: Self)
        ensures
            r.code() == code_of(format),
    {
        match format {
            PixelFormat::Xrgb8888 => DrmFormat(DRM_FORMAT_XRGB8888),
            PixelFormat::Argb8888 => DrmFormat(DRM_FORMAT_ARGB8888),
        }
    }
}

/// The layouts have the characters of their names.
pub proof fn law_layouts_have_their_names()
    ensures
        DRM_FORMAT_XRGB8888 == fourcc_code(0x58, 0x52, 0x32, 0x34),
        DRM_FORMAT_ARGB8888 == fourcc_code(0x41, 0x52, 0x32, 0x34),
{
}

/// Every layout that a frame can have can be drawn.
pub proof fn law_every_frame_can_be_drawn(format: PixelFormat)
    ensures
        vk_format_of(code_of(format)) is Some,
{
}

/// How the pixels of a buffer are arranged, by its number.
#[derive(Debug, Clone, Copy, PartialEq, Eq, Hash, PartialOrd, Ord, Structural)]
pub struct DrmModifier(u64);

impl DrmModifier {
    /// The number.
    pub closed spec fn value(self) -> u64 {
        self.0
    }

    /// Row after row.
    pub fn linear() -> (r: Self)
        ensures
            r.value() == 0,
    {
        DrmModifier(0)
    }

    /// The arrangement with any number.
    pub fn from_u64(value: u64) -> (r: Self)
        ensures
            r.value() == value,
    {
        DrmModifier(value)
    }

    /// The number.
    pub fn as_u64(self) -> (r: u64)
        ensures
            r == self.value(),
    {
        self.0
    }

    /// Who defined the arrangement: the highest byte.
    pub fn vendor(self) -> (r: u8)
        ensures
            r == self.value() / 0x100_0000_0000_0000,
    {
        (self.0 / 0x100_0000_0000_0000) as u8
    }
}

/// One plane of a buffer. `F` is what the host knows its memory by.
#[derive(Debug)]
pub struct DmabufPlane<F> {
    pub fd: F,
    pub offset: u64,
    pub stride: u64,
}

impl<F> DmabufPlane<F> {
    /// A plane that owns its memory.
    pub fn new(fd: F, offset: u64, stride: u64) -> (r: Self)
        ensures
            r == (DmabufPlane { fd, offset, stride }),
    {
        DmabufPlane { fd, offset, stride }
    }

    /// Where it begins.
    pub fn offset(&self) -> (r: u64)
        ensures
            r == self.offset,
    {
        self.offset
    }

    /// Bytes of one row.
    pub fn stride(&self) -> (r: u64)
        ensures
            r == self.stride,
    {
        self.stride
    }
}

/// A buffer, described.
#[derive(Debug)]
pub struct DmabufDescriptor<F> {
    pub width_px: u32,
    pub height_px: u32,
    pub format: DrmFormat,
    pub modifier: DrmModifier,
    pub planes: Vec<DmabufPlane<F>>,
}

/// The layout of one plane, as the graphics interface takes it for an import: its size and
/// the distances between layers are zero.
#[derive(Debug, Clone, Copy, PartialEq, Eq, Structural)]
pub struct PlaneLayout {
    pub offset: u64,
    pub size: u64,
    pub row_pitch: u64,
    pub array_pitch: u64,
    pub depth_pitch: u64,
}

/// The layouts of the planes of a buffer, in order.
pub open spec fn plane_layouts<F>(planes: Seq<DmabufPlane<F>>) -> Seq<PlaneLayout> {
    Seq::new(
        planes.len(),
        |i: int|
            PlaneLayout {
                offset: planes[i].offset,
                size: 0,
                row_pitch: planes[i].stride,
                array_pitch: 0,
                depth_pitch: 0,
            },
    )
}

/// What it takes to import a buffer.
#[derive(Debug)]
pub struct ImportPlan {
    pub width_px: u32,
    pub height_px: u32,
    pub format: i32,
    pub modifier: DrmModifier,
    pub layouts: Vec<PlaneLayout>,
}

/// The error of a layout that cannot be drawn.
pub open spec fn no_format_error(message: Seq<char>, code: u32) -> ErrorView {
    plain_error(ErrorCode::Unsupported, message).with(
        "fourcc"@,
        DetailView::Text(fourcc_text(code)),
    )
}

/// Why a buffer cannot be imported, where it cannot: the device has to share buffers, the
/// buffer has to have a plane and an extent, and its layout has to be known.
pub open spec fn import_refusal<F>(has_path: bool, d: DmabufDescriptor<F>) -> Option<ErrorView> {
    if !has_path {
        Some(
            plain_error(
                ErrorCode::CapabilityUnavailable,
                "this Vulkan device has no dma_buf import path, so the shm fallback must be used"@,
            ),
        )
    } else if d.planes@.len() == 0 {
        Some(
            plain_error(
                ErrorCode::InvalidArgument,
                "a dma_buf descriptor must carry at least one memory plane"@,
            ),
        )
    } else if d.width_px == 0 || d.height_px == 0 {
        Some(
            plain_error(
                ErrorCode::InvalidArgument,
                "a dma_buf descriptor must have a non-zero extent"@,
            ),
        )
    } else if vk_format_of(d.format.code()) is None {
        Some(
            no_format_error(
                "this DRM fourcc has no Vulkan format in the v1 mapping"@,
                d.format.code(),
            ),
        )
    } else {
        None
    }
}

/// What it takes to import a buffer, or why it cannot be.
pub fn plan_import<F>(has_path: bool, descriptor: &DmabufDescriptor<F>) -> (r: Result<
    ImportPlan,
    Error,
>)
    ensures
        match import_refusal(has_path, *descriptor) {
            Some(e) => r is Err && r->Err_0@ == e,
            None => {
                &&& r is Ok
                &&& r->Ok_0.width_px == descriptor.width_px
                &&& r->Ok_0.height_px == descriptor.height_px
                &&& Some(r->Ok_0.format) == vk_format_of(descriptor.format.code())
                &&& r->Ok_0.modifier == descriptor.modifier
                &&& r->Ok_0.layouts@ == plane_layouts(descriptor.planes@)
            },
        },
{
    if !has_path {
        return Err(
            Error::new(
                ErrorCode::CapabilityUnavailable,
                "this Vulkan device has no dma_buf import path, so the shm fallback must be used",
                TraceId::unattributed(),
            ),
        );
    }
    if descriptor.planes.len() == 0 {
        return Err(
            Error::new(
                ErrorCode::InvalidArgument,
                "a dma_buf descriptor must carry at least one memory plane",
                TraceId::unattributed(),
            ),
        );
    }
    if descriptor.width_px == 0 || descriptor.height_px == 0 {
        return Err(
            Error::new(
                ErrorCode::InvalidArgument,
                "a dma_buf descriptor must have a non-zero extent",
                TraceId::unattributed(),
            ),
        );
    }
    let format: i32 = match descriptor.format.to_vk_format() {
        Some(format) => format,
        None => return Err(
            Error::new(
                ErrorCode::Unsupported,
                "this DRM fourcc has no Vulkan format in the v1 mapping",
                TraceId::unattributed(),
            ).with_detail("fourcc", descriptor.format.as_fourcc_string()),
        ),
    };
    let mut layouts: Vec<PlaneLayout> = Vec::new();
    let mut i: usize = 0;
    while i < descriptor.planes.len()
        invariant
            i <= descriptor.planes.len(),
            layouts@ == plane_layouts(descriptor.planes@).take(i as int),
        decreases descriptor.planes.len() - i,
    {
        let plane = &descriptor.planes[i];
        layouts.push(
            PlaneLayout {
                offset: plane.offset,
                size: 0,
                row_pitch: plane.stride,
                array_pitch: 0,
                depth_pitch: 0,
            },
        );
        assert(layouts@ =~= plane_layouts(descriptor.planes@).take(i as int + 1));
        i = i + 1;
    }
    assert(plane_layouts(descriptor.planes@).take(i as int) =~= plane_layouts(descriptor.planes@));
    Ok(
        ImportPlan {
            width_px: descriptor.width_px,
            height_px: descriptor.height_px,
            format,
            modifier: descriptor.modifier,
            layouts,
        },
    )
}

/// The memory type for an imported buffer: the first that both the image and the memory
/// behind it allow, whatever its properties.
pub fn import_memory_type(types: &[u32], image_bits: u32, memory_bits: u32) -> (r: Result<
    u32,
    Error,
>)
    requires
        types@.len() <= MAX_MEMORY_TYPES,
    ensures
        r matches Ok(n) ==> {
            &&& n < types@.len()
            &&& memory_type_fits(types@, image_bits & memory_bits, 0, n as int)
            &&& forall|j: int|
                0 <= j < n ==> !#[trigger] memory_type_fits(
                    types@,
                    image_bits & memory_bits,
                    0,
                    j,
                )
        },
        r matches Err(e) ==> {
            &&& e@ == no_memory_type_error(image_bits & memory_bits, 0)
            &&& forall|j: int|
                0 <= j < types@.len() ==> !#[trigger] memory_type_fits(
                    types@,
                    image_bits & memory_bits,
                    0,
                    j,
                )
        },
{
    find_memory_type(types, image_bits & memory_bits, 0)
}

/// What is known of an imported buffer.
#[derive(Debug, Clone, Copy, PartialEq, Eq, Structural)]
pub struct ImportedImage {
    pub width_px: u32,
    pub height_px: u32,
    pub format: i32,
    pub modifier: DrmModifier,
    pub plane_count: u32,
}

impl ImportPlan {
    /// What is known of the buffer once it is imported.
    pub fn imported(&self) -> (r: ImportedImage)
        ensures
            r == (ImportedImage {
                width_px: self.width_px,
                height_px: self.height_px,
                format: self.format,
                modifier: self.modifier,
                plane_count: self.layouts@.len() as usize as u32,
            }),
    {
        ImportedImage {
            width_px: self.width_px,
            height_px: self.height_px,
            format: self.format,
            modifier: self.modifier,
            plane_count: self.layouts.len() as u32,
        }
    }
}

/// What a device offers for an arrangement.
#[derive(Debug, Clone, Copy, PartialEq, Eq, Structural)]
pub struct ModifierOffer {
    pub modifier: DrmModifier,
    pub plane_count: u32,
    pub features: u32,
}

/// The arrangements that offer all required features, with their planes, in order.
pub open spec fn modifiers_with(offers: Seq<ModifierOffer>, required: u32) -> Seq<
    (DrmModifier, u32),
>
    decreases offers.len(),
{
    if offers.len() == 0 {
        Seq::empty()
    } else {
        let earlier = modifiers_with(offers.drop_last(), required);
        if has_bits(offers.last().features, required) {
            earlier.push((offers.last().modifier, offers.last().plane_count))
        } else {
            earlier
        }
    }
}

/// The arrangements that offer all required features; a device that does not know of
/// arrangements is refused.
pub fn usable_modifiers(has_extension: bool, offers: &[ModifierOffer], required: u32) -> (r: Result<
    Vec<(DrmModifier, u32)>,
    Error,
>)
    ensures
        r is Ok <==> has_extension,
        r matches Ok(v) ==> v@ == modifiers_with(offers@, required),
        r matches Err(e) ==> e@ == plain_error(
            ErrorCode::CapabilityUnavailable,
            "this Vulkan device does not expose VK_EXT_image_drm_format_modifier"@,
        ),
{
    if !has_extension {
        return Err(
            Error::new(
                ErrorCode::CapabilityUnavailable,
                "this Vulkan device does not expose VK_EXT_image_drm_format_modifier",
                TraceId::unattributed(),
            ),
        );
    }
    let mut kept: Vec<(DrmModifier, u32)> = Vec::new();
    let mut i: usize = 0;
    assert(offers@.take(0) =~= Seq::<ModifierOffer>::empty());
    while i < offers.len()
        invariant
            i <= offers.len(),
            kept@ == modifiers_with(offers@.take(i as int), required),
        decreases offers.len() - i,
    {
        let offer = offers[i];
        assert(offers@.take(i as int + 1).drop_last() =~= offers@.take(i as int));
        assert(offers@.take(i as int + 1).last() == offer);
        if offer.features & required == required {
            kept.push((offer.modifier, offer.plane_count));
        }
        i = i + 1;
    }
    assert(offers@.take(i as int) =~= offers@);
    Ok(kept)
}

/// The arrangements of a single plane, in order.
pub open spec fn single_planes(modifiers: Seq<(DrmModifier, u32)>) -> Seq<u64>
    decreases modifiers.len(),
{
    if modifiers.len() == 0 {
        Seq::empty()
    } else {
        let earlier = single_planes(modifiers.drop_last());
        if modifiers.last().1 == 1 {
            earlier.push(modifiers.last().0.value())
        } else {
            earlier
        }
    }
}

/// The arrangements of a single plane, in order.
pub fn single_plane_modifiers(modifiers: &[(DrmModifier, u32)]) -> (r: Vec<u64>)
    ensures
        r@ == single_planes(modifiers@),
{
    let mut kept: Vec<u64> = Vec::new();
    let mut i: usize = 0;
    assert(modifiers@.take(0) =~= Seq::<(DrmModifier, u32)>::empty());
    while i < modifiers.len()
        invariant
            i <= modifiers.len(),
            kept@ == single_planes(modifiers@.take(i as int)),
        decreases modifiers.len() - i,
    {
        let m = modifiers[i];
        assert(modifiers@.take(i as int + 1).drop_last() =~= modifiers@.take(i as int));
        assert(modifiers@.take(i as int + 1).last() == m);
        if m.1 == 1 {
            kept.push(m.0.as_u64());
        }
        i = i + 1;
    }
    assert(modifiers@.take(i as int) =~= modifiers@);
    kept
}

/// The arrangements that a buffer of one's own may have: those of a single plane, and there
/// has to be one.
pub fn measurement_modifiers(format: DrmFormat, modifiers: &[(DrmModifier, u32)]) -> (r: Result<
    Vec<u64>,
    Error,
>)
    ensures
        r is Ok <==> single_planes(modifiers@).len() > 0,
        r matches Ok(v) ==> v@ == single_planes(modifiers@),
        r matches Err(e) ==> e@ == no_format_error(
            "no single-plane sampleable DRM format modifier is available for this fourcc"@,
            format.code(),
        ),
{
    let kept = single_plane_modifiers(modifiers);
    if kept.len() == 0 {
        return Err(
            Error::new(
                ErrorCode::Unsupported,
                "no single-plane sampleable DRM format modifier is available for this fourcc",
                TraceId::unattributed(),
            ).with_detail("fourcc", format.as_fourcc_string()),
        );
    }
    Ok(kept)
}

/// The arrangements that the shared picture of a measurement may have: those of a single
/// plane, in the order in which the device lists them. A list without any, and a list
/// without one of a single plane, are told apart.
pub fn probe_modifiers(offered: &[(DrmModifier, u32)]) -> (r: Result<Vec<u64>, Error>)
    ensures
        r is Ok <==> single_planes(offered@).len() > 0,
        r matches Ok(v) ==> v@ == single_planes(offered@),
        r matches Err(e) ==> e@ == plain_error(
            ErrorCode::Unsupported,
            if offered@.len() == 0 {
                "the device advertises no sampleable DRM format modifier for this fourcc"@
            } else {
                "no single-plane DRM format modifier is available for this fourcc"@
            },
        ),
{
    if offered.len() == 0 {
        return Err(
            Error::new(
                ErrorCode::Unsupported,
                "the device advertises no sampleable DRM format modifier for this fourcc",
                TraceId::unattributed(),
            ),
        );
    }
    let kept = single_plane_modifiers(offered);
    if kept.len() == 0 {
        return Err(
            Error::new(
                ErrorCode::Unsupported,
                "no single-plane DRM format modifier is available for this fourcc",
                TraceId::unattributed(),
            ),
        );
    }
    Ok(kept)
}

/// The format of the graphics interface for the pixels of a frame, or why there is none.
pub fn frame_vk_format(format: PixelFormat) -> (r: Result<i32, Error>)
    ensures
        r == Ok::<i32, Error>(VK_FORMAT_B8G8R8A8_UNORM),
{
    let layout = DrmFormat::from_pixel_format(format);
    match layout.to_vk_format() {
        Some(vk_format) => Ok(vk_format),
        None => Err(
            Error::new(
                ErrorCode::Unsupported,
                "this pixel format has no Vulkan format in the v1 mapping",
                TraceId::unattributed(),
            ).with_detail("fourcc", layout.as_fourcc_string()),
        ),
    }
}

/// Whether a device can export a buffer.
pub fn check_export_path(has_memory_fd: bool, has_modifiers: bool) -> (r: Result<(), Error>)
    ensures
        r is Ok <==> has_memory_fd && has_modifiers,
        r matches Err(e) ==> e@ == plain_error(
            ErrorCode::CapabilityUnavailable,
            "this Vulkan device cannot export a dma_buf"@,
        ),
{
    if has_memory_fd && has_modifiers {
        Ok(())
    } else {
        Err(
            Error::new(
                ErrorCode::CapabilityUnavailable,
                "this Vulkan device cannot export a dma_buf",
                TraceId::unattributed(),
            ),
        )
    }
}

/// The format of an exported buffer, or that there is none.
pub fn export_format(format: DrmFormat) -> (r: Result<i32, Error>)
    ensures
        match vk_format_of(format.code()) {
            Some(f) => r == Ok::<i32, Error>(f),
            None => r is Err && r->Err_0@ == plain_error(
                ErrorCode::Unsupported,
                "this DRM fourcc has no Vulkan format in the v1 mapping"@,
            ),
        },
{
    match format.to_vk_format() {
        Some(f) => Ok(f),
        None => Err(
            Error::new(
                ErrorCode::Unsupported,
                "this DRM fourcc has no Vulkan format in the v1 mapping",
                TraceId::unattributed(),
            ),
        ),
    }
}

/// The planes of the first entry with an arrangement.
pub open spec fn planes_of(modifiers: Seq<(DrmModifier, u32)>, chosen: DrmModifier) -> Option<u32>
    decreases modifiers.len(),
{
    if modifiers.len() == 0 {
        None
    } else if modifiers.first().0 == chosen {
        Some(modifiers.first().1)
    } else {
        planes_of(modifiers.drop_first(), chosen)
    }
}

/// No buffer has more planes than this.
pub const MAX_MEMORY_PLANES: u32 = 4;

/// How many planes an exported buffer has: those of the arrangement that the driver chose,
/// which has to be among those asked for, and no more than are handled.
pub fn export_plane_count(modifiers: &[(DrmModifier, u32)], chosen: DrmModifier) -> (r: Result<
    u32,
    Error,
>)
    ensures
        match planes_of(modifiers@, chosen) {
            None => r is Err && r->Err_0@ == plain_error(
                ErrorCode::Internal,
                "the modifier the driver chose is not in the queried modifier list"@,
            ).with("modifier"@, DetailView::Int(chosen.value() as i64 as int)),
            Some(n) => if n > MAX_MEMORY_PLANES {
                r is Err && r->Err_0@ == plain_error(
                    ErrorCode::Unsupported,
                    "the chosen DRM format modifier has more memory planes than v1 handles"@,
                ).with("plane_count"@, DetailView::Int(n as int))
            } else {
                r == Ok::<u32, Error>(n)
            },
        },
{
    let mut i: usize = 0;
    assert(modifiers@.skip(0) =~= modifiers@);
    while i < modifiers.len()
        invariant
            i <= modifiers.len(),
            planes_of(modifiers@, chosen) == planes_of(modifiers@.skip(i as int), chosen),
        decreases modifiers.len() - i,
    {
        let m = modifiers[i];
        assert(modifiers@.skip(i as int).first() == m);
        assert(modifiers@.skip(i as int).drop_first() =~= modifiers@.skip(i as int + 1));
        if m.0 == chosen {
            if m.1 > MAX_MEMORY_PLANES {
                return Err(
                    Error::new(
                        ErrorCode::Unsupported,
                        "the chosen DRM format modifier has more memory planes than v1 handles",
                        TraceId::unattributed(),
                    ).with_detail("plane_count", m.1 as i64),
                );
            }
            return Ok(m.1);
        }
        i = i + 1;
    }
    Err(
        Error::new(
            ErrorCode::Internal,
            "the modifier the driver chose is not in the queried modifier list",
            TraceId::unattributed(),
        ).with_detail("modifier", chosen.as_u64() as i64),
    )
}

/// A buffer that was exported.
#[derive(Debug)]
pub struct ExportedDmabuf<F> {
    pub descriptor: DmabufDescriptor<F>,
    pub chosen_modifier: DrmModifier,
}

impl<F> ExportedDmabuf<F> {
    /// An exported buffer, from what it was asked to be and what its planes became.
    pub fn of(
        width_px: u32,
        height_px: u32,
        format: DrmFormat,
        modifier: DrmModifier,
        planes: Vec<DmabufPlane<F>>,
    ) -> (r: Self)
        ensures
            r.chosen_modifier == modifier,
            r.descriptor == (DmabufDescriptor { width_px, height_px, format, modifier, planes }),
    {
        ExportedDmabuf {
            descriptor: DmabufDescriptor { width_px, height_px, format, modifier, planes },
            chosen_modifier: modifier,
        }
    }
}

/// What was exported can be imported by a device that shares buffers, with the same planes,
/// wherever it has an extent, a plane and a layout that can be drawn.
pub proof fn law_exported_buffer_can_be_imported<F>(exported: ExportedDmabuf<F>)
    requires
        exported.descriptor.planes@.len() > 0,
        exported.descriptor.width_px > 0,
        exported.descriptor.height_px > 0,
        vk_format_of(exported.descriptor.format.code()) is Some,
    ensures
        import_refusal(true, exported.descriptor) is None,
{
}

} // verus!
