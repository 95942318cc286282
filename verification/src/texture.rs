//! Checks on what goes to the graphics library: the image that becomes a
//! texture and the uniforms of the spotlight shader.

use crate::frame::BufferParams;
use crate::text::{decimal, decimal_text, join};
use crate::wire::Transform;
use vstd::prelude::*;

verus! {

/// The number of bytes of an RGBA image of this size.
pub open spec fn rgba_len(width: u32, height: u32) -> int {
    width * height * 4
}

/// Whether a buffer of `data_len` bytes holds an RGBA image of this size and
/// the size fits the graphics library's signed integers.
pub open spec fn acceptable(data_len: int, width: u32, height: u32) -> bool {
    &&& data_len == rgba_len(width, height)
    &&& width <= i32::MAX
    &&& height <= i32::MAX
}

/// Checks that a buffer of `data_len` bytes holds an RGBA image of this size
/// and that the size fits the graphics library's signed integers.
pub fn validate_rgba_buffer(data_len: usize, width: u32, height: u32) -> (size: Result<
    (i32, i32),
    String,
>)
    ensures
        match size {
            Ok(size) => {
                &&& acceptable(data_len as int, width, height)
                &&& data_len == 4 * (width * height)
                &&& size.0 == width
                &&& size.1 == height
            },
            Err(error) => if rgba_len(width, height) > usize::MAX {
                error@ == "capture dimensions overflow"@
            } else if data_len != rgba_len(width, height) {
                error@ == "invalid RGBA capture length: got "@ + decimal(data_len as nat)
                    + ", expected "@ + decimal(rgba_len(width, height) as nat)
            } else if width > i32::MAX {
                error@ == "capture width exceeds raylib limits"@
            } else {
                height > i32::MAX && error@ == "capture height exceeds raylib limits"@
            },
        },
{
    proof {
        rgba_len_bounds(width, height);
    }
    let expected_len: usize = match (width as usize).checked_mul(height as usize) {
        Some(pixels) => match pixels.checked_mul(4) {
            Some(len) => len,
            None => {
                return Err("capture dimensions overflow".to_string());
            },
        },
        None => {
            return Err("capture dimensions overflow".to_string());
        },
    };
    if data_len != expected_len {
        let got = join("invalid RGBA capture length: got ", decimal_text(data_len as u64).as_str());
        let expected = join(", expected ", decimal_text(expected_len as u64).as_str());
        return Err(join(got.as_str(), expected.as_str()));
    }
    if width > i32::MAX as u32 {
        return Err("capture width exceeds raylib limits".to_string());
    }
    if height > i32::MAX as u32 {
        return Err("capture height exceeds raylib limits".to_string());
    }
    Ok((width as i32, height as i32))
}

proof fn rgba_len_bounds(width: u32, height: u32)
    ensures
        0 <= width * height,
        width * height <= rgba_len(width, height),
        rgba_len(width, height) == 4 * (width * height),
{
    assert(0 <= width * height) by (nonlinear_arith);
}

/// Every image that a capture makes out of a buffer whose rows hold their
/// pixels is accepted as a texture.
pub proof fn captured_images_are_accepted(
    params: BufferParams,
    data: Seq<u8>,
    transform: Transform,
    y_invert: bool,
)
    requires
        4 * params.width <= params.stride,
        params.byte_size() <= i32::MAX,
        params.width > 0 || params.height <= i32::MAX,
        data.len() == params.byte_size(),
    ensures
        acceptable(
            params.image(data, transform, y_invert).len() as int,
            crate::pixels::upright_width(params.width as int, params.height as int, transform) as u32,
            crate::pixels::upright_height(params.width as int, params.height as int, transform) as u32,
        ),
{
    crate::frame::captured_image_is_full(params, data, transform, y_invert);
    let width = params.width as int;
    let height = params.height as int;
    let stride = params.stride as int;
    let across = crate::pixels::upright_width(width, height, transform);
    let down = crate::pixels::upright_height(width, height, transform);
    assert(4 * (across * down) == across * down * 4) by (nonlinear_arith);
    assert(height <= i32::MAX) by (nonlinear_arith)
        requires
            width > 0 || height <= i32::MAX,
            4 * width <= stride,
            stride * height <= i32::MAX,
            0 <= height,
    ;
    assert(width <= i32::MAX);
}

/// Where the spotlight shader keeps the values it is given each frame.
#[derive(Debug, Clone, Copy, PartialEq, Eq, Structural)]
pub struct SpotlightUniforms {
    pub tint: i32,
    pub cursor_position: i32,
    pub radius_squared: i32,
}

/// Checks that the spotlight shader compiled and linked.
pub fn check_spotlight_shader(valid: bool) -> (checked: Result<(), String>)
    ensures
        match checked {
            Ok(_) => valid,
            Err(error) => !valid && error@ == "spotlight shader failed to compile or link"@,
        },
{
    if valid {
        Ok(())
    } else {
        Err("spotlight shader failed to compile or link".to_string())
    }
}

/// The error for a uniform that the shader does not have.
pub open spec fn missing_uniform(name: Seq<char>) -> Seq<char> {
    "spotlight shader is missing uniform "@ + name
}

/// Checks the location of one uniform; negative locations stand for uniforms
/// that the shader does not have.
pub fn check_uniform(name: &str, location: i32) -> (checked: Result<i32, String>)
    ensures
        match checked {
            Ok(found) => location >= 0 && found == location,
            Err(error) => location < 0 && error@ == missing_uniform(name@) && error@
                == "spotlight shader is missing uniform "@ + name@,
        },
{
    if location < 0 {
        Err(join("spotlight shader is missing uniform ", name))
    } else {
        Ok(location)
    }
}

/// Checks the locations of the uniforms that change each frame. The error
/// names the first one that the shader does not have.
pub fn spotlight_uniforms(tint: i32, cursor_position: i32, radius_squared: i32) -> (uniforms: Result<
    SpotlightUniforms,
    String,
>)
    ensures
        match uniforms {
            Ok(uniforms) => {
                &&& tint >= 0 && cursor_position >= 0 && radius_squared >= 0
                &&& uniforms == (SpotlightUniforms { tint, cursor_position, radius_squared })
            },
            Err(error) => if tint < 0 {
                error@ == missing_uniform("spotlightTint"@)
            } else if cursor_position < 0 {
                error@ == missing_uniform("cursorPosition"@)
            } else {
                radius_squared < 0 && error@ == missing_uniform("spotlightRadiusSquared"@)
            },
        },
{
    if let Err(error) = check_uniform("spotlightTint", tint) {
        return Err(error);
    }
    if let Err(error) = check_uniform("cursorPosition", cursor_position) {
        return Err(error);
    }
    if let Err(error) = check_uniform("spotlightRadiusSquared", radius_squared) {
        return Err(error);
    }
    Ok(SpotlightUniforms { tint, cursor_position, radius_squared })
}

/// Checks the spotlight shader and the locations of all its uniforms: those
/// that change each frame, and that of the texture size, which is given once.
/// The error is that of the shader, or else names the first uniform that the
/// shader does not have.
pub fn spotlight_configuration(
    valid: bool,
    tint: i32,
    cursor_position: i32,
    radius_squared: i32,
    texture_size: i32,
) -> (configuration: Result<(SpotlightUniforms, i32), String>)
    ensures
        match configuration {
            Ok((uniforms, size)) => {
                &&& valid
                &&& tint >= 0 && cursor_position >= 0 && radius_squared >= 0 && texture_size >= 0
                &&& uniforms == (SpotlightUniforms { tint, cursor_position, radius_squared })
                &&& size == texture_size
            },
            Err(error) => if !valid {
                error@ == "spotlight shader failed to compile or link"@
            } else if tint < 0 {
                error@ == missing_uniform("spotlightTint"@)
            } else if cursor_position < 0 {
                error@ == missing_uniform("cursorPosition"@)
            } else if radius_squared < 0 {
                error@ == missing_uniform("spotlightRadiusSquared"@)
            } else {
                texture_size < 0 && error@ == missing_uniform("textureSize"@)
            },
        },
{
    if let Err(error) = check_spotlight_shader(valid) {
        return Err(error);
    }
    let uniforms = match spotlight_uniforms(tint, cursor_position, radius_squared) {
        Ok(uniforms) => uniforms,
        Err(error) => {
            return Err(error);
        },
    };
    match check_uniform("textureSize", texture_size) {
        Ok(size) => Ok((uniforms, size)),
        Err(error) => Err(error),
    }
}

/// A buffer is accepted exactly if it holds four bytes for each pixel of each
/// row and neither side of the image exceeds what a signed 32-bit integer
/// holds.
pub proof fn images_of_four_bytes_a_pixel_are_accepted(data_len: int, width: u32, height: u32)
    ensures
        rgba_len(width, height) == 4 * (width * height),
        acceptable(data_len, width, height) <==> data_len == 4 * (width * height) && width
            <= 0x7fff_ffff && height <= 0x7fff_ffff,
{
    rgba_len_bounds(width, height);
}

/// The error for a uniform that the shader does not have ends in its name, and
/// begins alike for all of them.
pub proof fn missing_uniforms_are_named(name: Seq<char>)
    ensures
        missing_uniform(name) == "spotlight shader is missing uniform "@ + name,
{
}

} // verus!
