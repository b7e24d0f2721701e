//! Textures: how pixels get onto the device and back.

use vstd::prelude::*;

use crate::error::{plain_error, DetailView, Error, ErrorCode};
use crate::frame::Frame;
use crate::id::TraceId;
use crate::render::dmabuf::{
    VK_FORMAT_B8G8R8A8_SRGB, VK_FORMAT_B8G8R8A8_UNORM, VK_FORMAT_R8G8B8A8_SRGB,
    VK_FORMAT_R8G8B8A8_UNORM,
};
use crate::render::facts::TextureRoute;

verus! {

/// The part of a buffer that is copied onto an image, counted in pixels.
#[derive(Debug, Clone, Copy, PartialEq, Eq, Structural)]
pub struct CopyRegion {
    pub row_length: u32,
    pub image_height: u32,
    pub width: u32,
    pub height: u32,
}

/// The part of a frame's bytes that is copied onto its image: whole rows, as long as the
/// frame's rows are.
pub fn staging_region(frame: &Frame) -> (r: CopyRegion)
    ensures
        r == (CopyRegion {
            row_length: (frame@.stride_bytes / 4) as u32,
            image_height: frame@.height_px,
            width: frame@.width_px,
            height: frame@.height_px,
        }),
        r.width <= r.row_length,
{
    let pixels = frame.pixels();
    CopyRegion {
        row_length: frame.stride_bytes() / frame.format().bytes_per_pixel(),
        image_height: frame.height_px(),
        width: frame.width_px(),
        height: frame.height_px(),
    }
}

/// How many bytes of staging memory a frame takes: all of its bytes.
pub fn staging_size(frame: &Frame) -> (r: u64)
    ensures
        r == frame@.pixels.len(),
        r == frame@.stride_bytes * frame@.height_px,
{
    frame.pixels().len() as u64
}

/// Whether a format has four bytes of colour for each pixel.
pub open spec fn four_byte_colour(format: i32) -> bool {
    ||| format == VK_FORMAT_B8G8R8A8_UNORM
    ||| format == VK_FORMAT_B8G8R8A8_SRGB
    ||| format == VK_FORMAT_R8G8B8A8_UNORM
    ||| format == VK_FORMAT_R8G8B8A8_SRGB
}

/// How many bytes an image has when it is read back; only four bytes of colour for each
/// pixel are read.
pub fn read_back_size(format: i32, width: u32, height: u32) -> (r: Result<u64, Error>)
    requires
        four_byte_colour(format) ==> width * height * 4 <= u64::MAX,
    ensures
        r is Ok <==> four_byte_colour(format),
        r matches Ok(n) ==> n == width * height * 4,
        r matches Err(e) ==> e@ == plain_error(
            ErrorCode::Unsupported,
            "the read-back path only knows 32-bit colour formats"@,
        ).with("vk_format"@, DetailView::Int(format as int)),
{
    if !(format == VK_FORMAT_B8G8R8A8_UNORM || format == VK_FORMAT_B8G8R8A8_SRGB || format
        == VK_FORMAT_R8G8B8A8_UNORM || format == VK_FORMAT_R8G8B8A8_SRGB) {
        return Err(
            Error::new(
                ErrorCode::Unsupported,
                "the read-back path only knows 32-bit colour formats",
                TraceId::unattributed(),
            ).with_detail("vk_format", format as i64),
        );
    }
    assert(0 <= width * height <= width * height * 4) by (nonlinear_arith)
        requires
            width >= 0,
            height >= 0,
    ;
    let area: u64 = width as u64 * height as u64;
    Ok(area * 4)
}

/// Whether an extent can be read back.
pub fn check_read_back_extent(width: u32, height: u32) -> (r: Result<(), Error>)
    ensures
        r is Ok <==> width > 0 && height > 0,
        r matches Err(e) ==> e@ == plain_error(
            ErrorCode::InvalidArgument,
            "the read-back extent must be non-zero"@,
        ),
{
    if width == 0 || height == 0 {
        return Err(
            Error::new(
                ErrorCode::InvalidArgument,
                "the read-back extent must be non-zero",
                TraceId::unattributed(),
            ),
        );
    }
    Ok(())
}

/// What belongs to a texture itself.
#[derive(Debug, Clone, Copy, PartialEq, Eq, Structural)]
pub enum TexturePart {
    Sampler,
    View,
    Image,
    Memory,
}

/// What a texture gives back when it goes, in order: what it made. The image of an imported
/// buffer, and the memory behind it, belong to the import.
pub fn texture_release_order(route: TextureRoute) -> (r: Vec<TexturePart>)
    ensures
        r@ == (match route {
            TextureRoute::Shm => seq![
                TexturePart::Sampler,
                TexturePart::View,
                TexturePart::Image,
                TexturePart::Memory,
            ],
            TextureRoute::Dmabuf => seq![TexturePart::Sampler, TexturePart::View],
        }),
{
    let mut order: Vec<TexturePart> = Vec::new();
    order.push(TexturePart::Sampler);
    order.push(TexturePart::View);
    if route == TextureRoute::Shm {
        order.push(TexturePart::Image);
        order.push(TexturePart::Memory);
    }
    order
}

} // verus!
