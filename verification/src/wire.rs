//! The Wayland enumerations the program reads, as plain values, and their
//! numeric codes on the wire.

use vstd::prelude::*;
use wayland_client::protocol::{wl_output, wl_shm};
use wayland_protocols_wlr::screencopy::v1::client::zwlr_screencopy_frame_v1::Flags;

verus! {

/// Pixel layout of a shared-memory buffer. The eight named layouts are the
/// 32-bit ones that can be turned into RGBA; `Other` stands for all the rest.
#[derive(Debug, Clone, Copy, PartialEq, Eq, Structural)]
pub enum ShmFormat {
    Xrgb8888,
    Argb8888,
    Xbgr8888,
    Abgr8888,
    Xrgb2101010,
    Argb2101010,
    Xbgr2101010,
    Abgr2101010,
    Other,
}

/// How an output's content is turned relative to its native orientation.
#[derive(Debug, Clone, Copy, PartialEq, Eq, Structural)]
pub enum Transform {
    Normal,
    Rotated90,
    Rotated180,
    Rotated270,
    Flipped,
    Flipped90,
    Flipped180,
    Flipped270,
}

/// The layout that a `wl_shm.format` code stands for.
pub open spec fn format_of_code(code: u32) -> ShmFormat {
    if code == 0 {
        ShmFormat::Argb8888
    } else if code == 1 {
        ShmFormat::Xrgb8888
    } else if code == 0x34324258 {
        ShmFormat::Xbgr8888
    } else if code == 0x34324241 {
        ShmFormat::Abgr8888
    } else if code == 0x30335258 {
        ShmFormat::Xrgb2101010
    } else if code == 0x30335241 {
        ShmFormat::Argb2101010
    } else if code == 0x30334258 {
        ShmFormat::Xbgr2101010
    } else if code == 0x30334241 {
        ShmFormat::Abgr2101010
    } else {
        ShmFormat::Other
    }
}

/// The transform that a `wl_output.transform` code stands for, if any.
pub open spec fn transform_of_code(code: u32) -> Option<Transform> {
    if code == 0 {
        Some(Transform::Normal)
    } else if code == 1 {
        Some(Transform::Rotated90)
    } else if code == 2 {
        Some(Transform::Rotated180)
    } else if code == 3 {
        Some(Transform::Rotated270)
    } else if code == 4 {
        Some(Transform::Flipped)
    } else if code == 5 {
        Some(Transform::Flipped90)
    } else if code == 6 {
        Some(Transform::Flipped180)
    } else if code == 7 {
        Some(Transform::Flipped270)
    } else {
        None
    }
}

/// Whether a screencopy `flags` bit set asks for a vertical flip; `None` for
/// a bit set with a bit that the protocol does not define.
pub open spec fn y_invert_of_flags(flags: u32) -> Option<bool> {
    if flags == 0 {
        Some(false)
    } else if flags == 1 {
        Some(true)
    } else {
        None
    }
}

/// `wl_shm::Format::try_from`: the eight layouts of `ShmFormat` are told
/// apart by their codes; every other code, known to the protocol or not,
/// gives `Other`.
#[verifier::external_body]
pub(crate) fn decode_format(code: u32) -> (format: ShmFormat)
    ensures
        format == format_of_code(code),
{
    match wl_shm::Format::try_from(code) {
        Ok(wl_shm::Format::Xrgb8888) => ShmFormat::Xrgb8888,
        Ok(wl_shm::Format::Argb8888) => ShmFormat::Argb8888,
        Ok(wl_shm::Format::Xbgr8888) => ShmFormat::Xbgr8888,
        Ok(wl_shm::Format::Abgr8888) => ShmFormat::Abgr8888,
        Ok(wl_shm::Format::Xrgb2101010) => ShmFormat::Xrgb2101010,
        Ok(wl_shm::Format::Argb2101010) => ShmFormat::Argb2101010,
        Ok(wl_shm::Format::Xbgr2101010) => ShmFormat::Xbgr2101010,
        Ok(wl_shm::Format::Abgr2101010) => ShmFormat::Abgr2101010,
        _ => ShmFormat::Other,
    }
}

/// `wl_output::Transform::try_from`: the codes 0 to 7 give the eight
/// transforms in the order of `Transform`; no other code is one.
#[verifier::external_body]
pub(crate) fn decode_transform(code: u32) -> (transform: Option<Transform>)
    ensures
        transform == transform_of_code(code),
{
    match wl_output::Transform::try_from(code) {
        Ok(wl_output::Transform::Normal) => Some(Transform::Normal),
        Ok(wl_output::Transform::_90) => Some(Transform::Rotated90),
        Ok(wl_output::Transform::_180) => Some(Transform::Rotated180),
        Ok(wl_output::Transform::_270) => Some(Transform::Rotated270),
        Ok(wl_output::Transform::Flipped) => Some(Transform::Flipped),
        Ok(wl_output::Transform::Flipped90) => Some(Transform::Flipped90),
        Ok(wl_output::Transform::Flipped180) => Some(Transform::Flipped180),
        Ok(wl_output::Transform::Flipped270) => Some(Transform::Flipped270),
        _ => None,
    }
}

/// `Flags::from_bits` and `Flags::contains` on `Flags::YInvert`: bit 0, the
/// only bit that the protocol defines, is the vertical flip, and a bit set
/// with any other bit is not a `Flags` value.
#[verifier::external_body]
pub(crate) fn decode_y_invert(flags: u32) -> (y_invert: Option<bool>)
    ensures
        y_invert == y_invert_of_flags(flags),
{
    match Flags::from_bits(flags) {
        Some(flags) => Some(flags.contains(Flags::YInvert)),
        None => None,
    }
}

/// Whether frames in this layout can be turned into RGBA.
pub open spec fn supported(format: ShmFormat) -> bool {
    format != ShmFormat::Other
}

/// Whether frames in this layout can be turned into RGBA.
pub fn is_supported_format(format: ShmFormat) -> (yes: bool)
    ensures
        yes == supported(format),
{
    match format {
        ShmFormat::Other => false,
        _ => true,
    }
}

/// The `wl_shm.format` code of a supported layout.
pub fn format_code(format: ShmFormat) -> (code: Option<u32>)
    ensures
        code is Some <==> supported(format),
        code matches Some(code) ==> format_of_code(code) == format,
{
    match format {
        ShmFormat::Xrgb8888 => Some(1),
        ShmFormat::Argb8888 => Some(0),
        ShmFormat::Xbgr8888 => Some(0x34324258),
        ShmFormat::Abgr8888 => Some(0x34324241),
        ShmFormat::Xrgb2101010 => Some(0x30335258),
        ShmFormat::Argb2101010 => Some(0x30335241),
        ShmFormat::Xbgr2101010 => Some(0x30334258),
        ShmFormat::Abgr2101010 => Some(0x30334241),
        ShmFormat::Other => None,
    }
}

/// A format code that stands for a supported layout is the only code of that
/// layout.
pub proof fn supported_format_has_one_code(a: u32, b: u32)
    requires
        supported(format_of_code(a)),
        format_of_code(a) == format_of_code(b),
    ensures
        a == b,
{
}

/// Each supported layout has the code that the protocol gives it: 0 and 1 for
/// the two common ones, and for the others the four characters of their name in
/// the graphics drivers, little-endian. No other code stands for a layout that
/// is supported.
pub proof fn layouts_have_their_protocol_codes(code: u32)
    ensures
        format_of_code(code) == ShmFormat::Argb8888 <==> code == 0,
        format_of_code(code) == ShmFormat::Xrgb8888 <==> code == 1,
        format_of_code(code) == ShmFormat::Xbgr8888 <==> code == 'X' as u32 + 0x100 * ('B' as u32)
            + 0x1_0000 * ('2' as u32) + 0x100_0000 * ('4' as u32),
        format_of_code(code) == ShmFormat::Abgr8888 <==> code == 'A' as u32 + 0x100 * ('B' as u32)
            + 0x1_0000 * ('2' as u32) + 0x100_0000 * ('4' as u32),
        format_of_code(code) == ShmFormat::Xrgb2101010 <==> code == 'X' as u32 + 0x100 * ('R' as u32)
            + 0x1_0000 * ('3' as u32) + 0x100_0000 * ('0' as u32),
        format_of_code(code) == ShmFormat::Argb2101010 <==> code == 'A' as u32 + 0x100 * ('R' as u32)
            + 0x1_0000 * ('3' as u32) + 0x100_0000 * ('0' as u32),
        format_of_code(code) == ShmFormat::Xbgr2101010 <==> code == 'X' as u32 + 0x100 * ('B' as u32)
            + 0x1_0000 * ('3' as u32) + 0x100_0000 * ('0' as u32),
        format_of_code(code) == ShmFormat::Abgr2101010 <==> code == 'A' as u32 + 0x100 * ('B' as u32)
            + 0x1_0000 * ('3' as u32) + 0x100_0000 * ('0' as u32),
{
}

/// All the named layouts are supported, and nothing else is.
pub proof fn named_layouts_are_supported()
    ensures
        supported(ShmFormat::Xrgb8888) && supported(ShmFormat::Argb8888),
        supported(ShmFormat::Xbgr8888) && supported(ShmFormat::Abgr8888),
        supported(ShmFormat::Xrgb2101010) && supported(ShmFormat::Argb2101010),
        supported(ShmFormat::Xbgr2101010) && supported(ShmFormat::Abgr2101010),
        !supported(ShmFormat::Other),
{
}

/// The codes of the transforms count the quarter turns, and 4 more stand for a
/// flip. No other code is one.
pub proof fn transform_codes_count_quarter_turns(code: u32)
    ensures
        transform_of_code(code) == Some(Transform::Normal) <==> code == 0,
        transform_of_code(code) == Some(Transform::Rotated90) <==> code == 1,
        transform_of_code(code) == Some(Transform::Rotated180) <==> code == 2,
        transform_of_code(code) == Some(Transform::Rotated270) <==> code == 3,
        transform_of_code(code) == Some(Transform::Flipped) <==> code == 4 + 0,
        transform_of_code(code) == Some(Transform::Flipped90) <==> code == 4 + 1,
        transform_of_code(code) == Some(Transform::Flipped180) <==> code == 4 + 2,
        transform_of_code(code) == Some(Transform::Flipped270) <==> code == 4 + 3,
        transform_of_code(code) is None <==> code >= 8,
{
}

/// The lowest flag asks for a vertical flip; a set with any other flag says
/// nothing.
pub proof fn lowest_flag_asks_for_a_flip(flags: u32)
    ensures
        y_invert_of_flags(flags) is Some <==> flags < 2,
        y_invert_of_flags(flags) == Some(true) <==> flags == 1,
        y_invert_of_flags(flags) == Some(false) <==> flags == 0,
{
}

} // verus!
