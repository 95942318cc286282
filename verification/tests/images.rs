use woomer::frame::BufferParams;
use woomer::pixels::{apply_transform, convert_to_rgba, drop_row_padding, flip_vertical_in_place};
use woomer::texture::{
    check_spotlight_shader, check_uniform, spotlight_configuration, spotlight_uniforms,
    validate_rgba_buffer, SpotlightUniforms,
};
use woomer::wire::{format_code, is_supported_format, ShmFormat, Transform};

const TRANSFORMS: [Transform; 8] = [
    Transform::Normal,
    Transform::Rotated90,
    Transform::Rotated180,
    Transform::Rotated270,
    Transform::Flipped,
    Transform::Flipped90,
    Transform::Flipped180,
    Transform::Flipped270,
];

/// An image whose pixels are four copies of their number.
fn numbered(numbers: &[u8]) -> Vec<u8> {
    numbers.iter().flat_map(|n| [*n; 4]).collect()
}

fn turned(width: u32, height: u32, transform: Transform) -> (Vec<u8>, u32, u32) {
    let numbers: Vec<u8> = (0..(width * height) as u8).collect();
    apply_transform(numbered(&numbers), width, height, transform)
}

#[test]
fn rejects_invalid_rgba_buffer_length() {
    assert!(validate_rgba_buffer(15, 2, 2).is_err());
    assert_eq!(validate_rgba_buffer(16, 2, 2), Ok((2, 2)));
}

#[test]
fn length_error_names_both_lengths() {
    assert_eq!(
        validate_rgba_buffer(15, 2, 2),
        Err("invalid RGBA capture length: got 15, expected 16".to_string())
    );
    assert_eq!(
        validate_rgba_buffer(0, 1920, 1080),
        Err("invalid RGBA capture length: got 0, expected 8294400".to_string())
    );
}

#[test]
fn size_limits_are_checked_in_order() {
    assert_eq!(
        validate_rgba_buffer(0, u32::MAX, u32::MAX),
        Err("capture dimensions overflow".to_string())
    );
    assert_eq!(
        validate_rgba_buffer(0, u32::MAX, 0),
        Err("capture width exceeds raylib limits".to_string())
    );
    assert_eq!(
        validate_rgba_buffer(0, 0, u32::MAX),
        Err("capture height exceeds raylib limits".to_string())
    );
    assert_eq!(validate_rgba_buffer(0, 0, 0), Ok((0, 0)));
}

#[test]
fn eight_bit_layouts_become_rgba() {
    let bytes: Vec<u8> = vec![1, 2, 3, 4, 5, 6, 7, 8, 9];
    let cases = [
        (ShmFormat::Xrgb8888, [3, 2, 1, 255, 7, 6, 5, 255, 9]),
        (ShmFormat::Argb8888, [3, 2, 1, 4, 7, 6, 5, 8, 9]),
        (ShmFormat::Xbgr8888, [1, 2, 3, 255, 5, 6, 7, 255, 9]),
        (ShmFormat::Abgr8888, [1, 2, 3, 4, 5, 6, 7, 8, 9]),
        (ShmFormat::Other, [1, 2, 3, 4, 5, 6, 7, 8, 9]),
    ];
    for (format, expected) in cases {
        let mut data = bytes.clone();
        convert_to_rgba(&mut data, format);
        assert_eq!(data, expected);
    }
}

#[test]
fn ten_bit_layouts_become_rgba() {
    // Alpha 2, then fields 0x3ff, 0x200 and 0x004 from the top.
    let word: u32 = (2 << 30) | (0x3ff << 20) | (0x200 << 10) | 0x004;
    let cases = [
        (ShmFormat::Xrgb2101010, [255, 128, 1, 255]),
        (ShmFormat::Argb2101010, [255, 128, 1, 170]),
        (ShmFormat::Xbgr2101010, [1, 128, 255, 255]),
        (ShmFormat::Abgr2101010, [1, 128, 255, 170]),
    ];
    for (format, expected) in cases {
        let mut data = word.to_le_bytes().to_vec();
        convert_to_rgba(&mut data, format);
        assert_eq!(data, expected);
    }
    for alpha in 0..4u32 {
        let mut data = (alpha << 30).to_le_bytes().to_vec();
        convert_to_rgba(&mut data, ShmFormat::Argb2101010);
        assert_eq!(data, [0, 0, 0, 85 * alpha as u8]);
    }
}

#[test]
fn supported_layouts_have_codes() {
    assert_eq!(format_code(ShmFormat::Argb8888), Some(0));
    assert_eq!(format_code(ShmFormat::Xrgb8888), Some(1));
    assert_eq!(format_code(ShmFormat::Xbgr8888), Some(0x34324258));
    assert_eq!(format_code(ShmFormat::Other), None);
    assert!(is_supported_format(ShmFormat::Abgr2101010));
    assert!(!is_supported_format(ShmFormat::Other));
}

#[test]
fn row_padding_is_dropped() {
    let mut data: Vec<u8> = vec![
        1, 1, 1, 1, 2, 2, 2, 2, 90, 91, 3, 3, 3, 3, 4, 4, 4, 4, 92, 93, 5, 5, 5, 5, 6, 6, 6, 6, 94,
        95,
    ];
    drop_row_padding(&mut data, 2, 3, 10);
    assert_eq!(data, numbered(&[1, 2, 3, 4, 5, 6]));

    let mut packed = numbered(&[1, 2, 3, 4]);
    drop_row_padding(&mut packed, 2, 2, 8);
    assert_eq!(packed, numbered(&[1, 2, 3, 4]));

    let mut short: Vec<u8> = vec![7, 8];
    drop_row_padding(&mut short, 1, 1, 2);
    assert_eq!(short, [7, 8]);
}

#[test]
fn transforms_are_undone() {
    // 0 1 2
    // 3 4 5
    let cases = [
        (Transform::Normal, 3, 2, [0, 1, 2, 3, 4, 5]),
        (Transform::Rotated90, 2, 3, [3, 0, 4, 1, 5, 2]),
        (Transform::Rotated180, 3, 2, [5, 4, 3, 2, 1, 0]),
        (Transform::Rotated270, 2, 3, [2, 5, 1, 4, 0, 3]),
        (Transform::Flipped, 3, 2, [2, 1, 0, 5, 4, 3]),
        (Transform::Flipped90, 2, 3, [5, 2, 4, 1, 3, 0]),
        (Transform::Flipped180, 3, 2, [3, 4, 5, 0, 1, 2]),
        (Transform::Flipped270, 2, 3, [0, 3, 1, 4, 2, 5]),
    ];
    for (transform, width, height, numbers) in cases {
        assert_eq!(turned(3, 2, transform), (numbered(&numbers), width, height));
    }
}

#[test]
fn inverse_transform_restores_the_image() {
    for transform in TRANSFORMS {
        let inverse = match transform {
            Transform::Rotated90 => Transform::Rotated270,
            Transform::Rotated270 => Transform::Rotated90,
            other => other,
        };
        let (data, width, height) = turned(3, 4, transform);
        let (back, across, down) = apply_transform(data, width, height, inverse);
        assert_eq!((back, across, down), turned(3, 4, Transform::Normal));
    }
}

#[test]
fn bytes_after_the_image_are_cleared_by_turning() {
    let data: Vec<u8> = vec![1, 1, 1, 1, 2, 2, 2, 2, 9, 9];
    assert_eq!(
        apply_transform(data.clone(), 2, 1, Transform::Flipped),
        (vec![2, 2, 2, 2, 1, 1, 1, 1, 0, 0], 2, 1)
    );
    assert_eq!(apply_transform(data.clone(), 2, 1, Transform::Normal), (data, 2, 1));
}

#[test]
fn flipping_swaps_rows() {
    let mut image = numbered(&[0, 1, 2, 3, 4, 5]);
    flip_vertical_in_place(&mut image, 2, 3);
    assert_eq!(image, numbered(&[4, 5, 2, 3, 0, 1]));
    flip_vertical_in_place(&mut image, 2, 3);
    assert_eq!(image, numbered(&[0, 1, 2, 3, 4, 5]));

    let mut single: Vec<u8> = vec![1, 2, 3];
    flip_vertical_in_place(&mut single, 1, 1);
    assert_eq!(single, [1, 2, 3]);
}

#[test]
fn flipped_half_turn_is_a_vertical_flip() {
    let mut image = numbered(&[0, 1, 2, 3, 4, 5, 6, 7]);
    let (undone, width, height) = apply_transform(image.clone(), 2, 4, Transform::Flipped180);
    flip_vertical_in_place(&mut image, 2, 4);
    assert_eq!((undone, width, height), (image, 2, 4));
}

#[test]
fn buffers_become_upright_images() {
    // Two rows of two BGRx pixels, with two bytes of padding each.
    let params = BufferParams { width: 2, height: 2, stride: 10, format: ShmFormat::Xrgb8888 };
    let data: Vec<u8> = vec![
        10, 11, 12, 0, 20, 21, 22, 0, 77, 77, 30, 31, 32, 0, 40, 41, 42, 0, 77, 77,
    ];
    assert_eq!(params.buffer_size(), Ok(20));
    assert!(params.is_readable(Transform::Rotated90));
    let (width, height, image) = params.assemble(data.clone(), Transform::Rotated90, false);
    assert_eq!((width, height), (2, 2));
    assert_eq!(
        image,
        [32, 31, 30, 255, 12, 11, 10, 255, 42, 41, 40, 255, 22, 21, 20, 255]
    );
    assert_eq!(validate_rgba_buffer(image.len(), width, height), Ok((2, 2)));
    let (_, _, inverted) = params.assemble(data, Transform::Rotated90, true);
    assert_eq!(
        inverted,
        [42, 41, 40, 255, 22, 21, 20, 255, 32, 31, 30, 255, 12, 11, 10, 255]
    );
}

#[test]
fn short_rows_are_not_readable() {
    let params = BufferParams { width: 2, height: 2, stride: 7, format: ShmFormat::Xrgb8888 };
    assert!(!params.is_readable(Transform::Normal));
    let single = BufferParams { height: 1, ..params };
    assert!(single.is_readable(Transform::Normal));
    assert!(!single.is_readable(Transform::Flipped));
    let none = BufferParams { height: 0, ..params };
    assert!(none.is_readable(Transform::Flipped));
}

#[test]
fn oversized_buffers_are_refused() {
    let params =
        BufferParams { width: 1, height: 0x8000, stride: 0x10000, format: ShmFormat::Xrgb8888 };
    assert_eq!(params.buffer_size(), Err("screencopy buffer size overflow".to_string()));
    let params = BufferParams { height: 0x7fff, ..params };
    assert_eq!(params.buffer_size(), Ok(0x7fff_0000));
}

#[test]
fn spotlight_shader_needs_its_uniforms() {
    assert_eq!(check_spotlight_shader(true), Ok(()));
    assert_eq!(
        check_spotlight_shader(false),
        Err("spotlight shader failed to compile or link".to_string())
    );
    assert_eq!(
        spotlight_uniforms(3, 0, 7),
        Ok(SpotlightUniforms { tint: 3, cursor_position: 0, radius_squared: 7 })
    );
    assert_eq!(
        spotlight_uniforms(-1, -1, -1),
        Err("spotlight shader is missing uniform spotlightTint".to_string())
    );
    assert_eq!(
        spotlight_uniforms(0, -1, -1),
        Err("spotlight shader is missing uniform cursorPosition".to_string())
    );
    assert_eq!(
        spotlight_uniforms(0, 1, -1),
        Err("spotlight shader is missing uniform spotlightRadiusSquared".to_string())
    );
    assert_eq!(check_uniform("textureSize", 4), Ok(4));
    assert_eq!(
        check_uniform("textureSize", -1),
        Err("spotlight shader is missing uniform textureSize".to_string())
    );
}

#[test]
fn spotlight_shader_is_checked_in_order() {
    let error = |valid, tint, cursor_position, radius_squared, texture_size| {
        spotlight_configuration(valid, tint, cursor_position, radius_squared, texture_size)
            .unwrap_err()
    };
    assert_eq!(
        spotlight_configuration(true, 3, 0, 7, 4),
        Ok((SpotlightUniforms { tint: 3, cursor_position: 0, radius_squared: 7 }, 4))
    );
    assert_eq!(error(false, -1, -1, -1, -1), "spotlight shader failed to compile or link");
    assert_eq!(error(false, 3, 0, 7, 4), "spotlight shader failed to compile or link");
    assert_eq!(
        error(true, -1, -1, -1, -1),
        "spotlight shader is missing uniform spotlightTint"
    );
    assert_eq!(
        error(true, 3, -1, -1, -1),
        "spotlight shader is missing uniform cursorPosition"
    );
    assert_eq!(
        error(true, 3, 0, -1, -1),
        "spotlight shader is missing uniform spotlightRadiusSquared"
    );
    assert_eq!(error(true, 3, 0, 7, -1), "spotlight shader is missing uniform textureSize");
}
