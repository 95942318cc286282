//! Conversion of captured frames into upright RGBA images.

use crate::wire::{ShmFormat, Transform};
use vstd::arithmetic::div_mod::{lemma_fundamental_div_mod, lemma_fundamental_div_mod_converse};
use vstd::prelude::*;

verus! {

/// One RGBA pixel.
pub struct Rgba {
    pub r: u8,
    pub g: u8,
    pub b: u8,
    pub a: u8,
}

/// The byte of a pixel at offset `k` of its four bytes in memory.
pub open spec fn channel(p: Rgba, k: int) -> u8 {
    if k == 0 {
        p.r
    } else if k == 1 {
        p.g
    } else if k == 2 {
        p.b
    } else {
        p.a
    }
}

/// The top eight bits of the ten-bit field of a little-endian word that
/// starts at bit `0`, `10` or `20`.
pub open spec fn ten_bit_field(word: int, start: int) -> u8 {
    let shifted = if start == 0 {
        word
    } else if start == 10 {
        word / 0x400
    } else {
        word / 0x10_0000
    };
    ((shifted % 0x400) / 4) as u8
}

/// The pixel that four bytes in memory stand for. The layouts define the
/// fields of a little-endian word, so `Xrgb8888` is B, G, R, x in memory; an
/// `X` field carries no alpha and reads as opaque; the two-bit alpha steps
/// from 0 to 255 in thirds.
pub open spec fn rgba_of(b0: u8, b1: u8, b2: u8, b3: u8, format: ShmFormat) -> Rgba {
    let word = b0 + 0x100 * b1 + 0x1_0000 * b2 + 0x100_0000 * b3;
    let low = ten_bit_field(word, 0);
    let mid = ten_bit_field(word, 10);
    let high = ten_bit_field(word, 20);
    let alpha = (word / 0x4000_0000 * 85) as u8;
    match format {
        ShmFormat::Xrgb8888 => Rgba { r: b2, g: b1, b: b0, a: 255 },
        ShmFormat::Argb8888 => Rgba { r: b2, g: b1, b: b0, a: b3 },
        ShmFormat::Xbgr8888 => Rgba { r: b0, g: b1, b: b2, a: 255 },
        ShmFormat::Abgr8888 => Rgba { r: b0, g: b1, b: b2, a: b3 },
        ShmFormat::Xrgb2101010 => Rgba { r: high, g: mid, b: low, a: 255 },
        ShmFormat::Argb2101010 => Rgba { r: high, g: mid, b: low, a: alpha },
        ShmFormat::Xbgr2101010 => Rgba { r: low, g: mid, b: high, a: 255 },
        ShmFormat::Abgr2101010 => Rgba { r: low, g: mid, b: high, a: alpha },
        ShmFormat::Other => Rgba { r: b0, g: b1, b: b2, a: b3 },
    }
}

/// The pixel that the four bytes at offset `at` stand for.
pub open spec fn rgba_at(data: Seq<u8>, at: int, format: ShmFormat) -> Rgba {
    rgba_of(data[at], data[at + 1], data[at + 2], data[at + 3], format)
}

/// Every whole pixel of `data` rewritten as RGBA; bytes after the last whole
/// pixel stay as they are.
pub open spec fn converted(data: Seq<u8>, format: ShmFormat) -> Seq<u8> {
    Seq::new(
        data.len(),
        |i: int|
            if i / 4 * 4 + 4 <= data.len() {
                channel(rgba_at(data, i / 4 * 4, format), i % 4)
            } else {
                data[i]
            },
    )
}

/// The pixel that four bytes in memory stand for.
fn decode_pixel(b0: u8, b1: u8, b2: u8, b3: u8, format: ShmFormat) -> (p: Rgba)
    ensures
        p == rgba_of(b0, b1, b2, b3, format),
{
    let word: u32 = b0 as u32 + 0x100 * b1 as u32 + 0x1_0000 * b2 as u32 + 0x100_0000 * b3 as u32;
    let low = (word % 0x400 / 4) as u8;
    let mid = (word / 0x400 % 0x400 / 4) as u8;
    let high = (word / 0x10_0000 % 0x400 / 4) as u8;
    let alpha = (word / 0x4000_0000 * 85) as u8;
    match format {
        ShmFormat::Xrgb8888 => Rgba { r: b2, g: b1, b: b0, a: 255 },
        ShmFormat::Argb8888 => Rgba { r: b2, g: b1, b: b0, a: b3 },
        ShmFormat::Xbgr8888 => Rgba { r: b0, g: b1, b: b2, a: 255 },
        ShmFormat::Abgr8888 => Rgba { r: b0, g: b1, b: b2, a: b3 },
        ShmFormat::Xrgb2101010 => Rgba { r: high, g: mid, b: low, a: 255 },
        ShmFormat::Argb2101010 => Rgba { r: high, g: mid, b: low, a: alpha },
        ShmFormat::Xbgr2101010 => Rgba { r: low, g: mid, b: high, a: 255 },
        ShmFormat::Abgr2101010 => Rgba { r: low, g: mid, b: high, a: alpha },
        ShmFormat::Other => Rgba { r: b0, g: b1, b: b2, a: b3 },
    }
}

/// Rewrites the pixel at offset `at` as RGBA in place.
fn convert_pixel(data: &mut [u8], at: usize, format: ShmFormat)
    requires
        at + 4 <= old(data)@.len(),
    ensures
        final(data)@.len() == old(data)@.len(),
        forall|i: int|
            0 <= i < at || at + 4 <= i < old(data)@.len() ==> final(data)@[i] == old(data)@[i],
        forall|i: int|
            at <= i < at + 4 ==> final(data)@[i] == channel(
                rgba_at(old(data)@, at as int, format),
                i - at,
            ),
{
    let p = decode_pixel(data[at], data[at + 1], data[at + 2], data[at + 3], format);
    data[at] = p.r;
    data[at + 1] = p.g;
    data[at + 2] = p.b;
    data[at + 3] = p.a;
}

/// The converted bytes of the pixel at offset `at`.
proof fn converted_pixel(data: Seq<u8>, format: ShmFormat, at: int)
    requires
        at % 4 == 0,
        0 <= at,
        at + 4 <= data.len(),
    ensures
        forall|i: int|
            at <= i < at + 4 ==> #[trigger] converted(data, format)[i] == channel(
                rgba_at(data, at, format),
                i - at,
            ),
{
    assert forall|i: int| at <= i < at + 4 implies #[trigger] converted(data, format)[i] == channel(
        rgba_at(data, at, format),
        i - at,
    ) by {
        assert(i / 4 * 4 == at && i % 4 == i - at);
    }
}

/// Rewrites 32-bit shared-memory pixels as RGBA in place.
pub fn convert_to_rgba(data: &mut [u8], format: ShmFormat)
    ensures
        final(data)@ == converted(old(data)@, format),
{
    let ghost before = data@;
    let ghost after = converted(data@, format);
    let len = data.len();
    let mut at: usize = 0;
    while len - at >= 4
        invariant
            at <= len,
            at % 4 == 0,
            len == data@.len(),
            len == before.len(),
            after == converted(before, format),
            forall|i: int| 0 <= i < at ==> data@[i] == after[i],
            forall|i: int| at <= i < len ==> data@[i] == before[i],
        decreases len - at,
    {
        proof {
            converted_pixel(before, format, at as int);
        }
        convert_pixel(data, at, format);
        at = at + 4;
    }
    assert(data@ =~= after);
}

/// A cell of a grid of `w` columns and `h` rows, by column and row, is a cell
/// by its number in reading order.
proof fn cell_number(x: int, y: int, w: int, h: int)
    requires
        0 <= x < w,
        0 <= y < h,
    ensures
        0 <= y * w + x < w * h,
        (y * w + x) / w == y,
        (y * w + x) % w == x,
{
    assert(0 <= y * w && y * w + w <= w * h) by (nonlinear_arith)
        requires
            0 <= x < w,
            0 <= y < h,
    ;
    lemma_fundamental_div_mod_converse(y * w + x, w, y, x);
}

/// A cell by its number in reading order is a cell by column and row.
proof fn cell_position(n: int, w: int, h: int)
    requires
        0 <= w,
        0 <= h,
        0 <= n < w * h,
    ensures
        0 < w,
        0 < h,
        0 <= n % w < w,
        0 <= n / w < h,
        n == n / w * w + n % w,
{
    assert(0 < w && 0 < h) by (nonlinear_arith)
        requires
            0 <= w,
            0 <= h,
            0 <= n < w * h,
    ;
    lemma_fundamental_div_mod(n, w);
    assert(n == n / w * w + n % w) by (nonlinear_arith)
        requires
            n == w * (n / w) + n % w,
    ;
    assert(0 <= n / w < h) by (nonlinear_arith)
        requires
            0 < w,
            0 <= n < w * h,
            n == n / w * w + n % w,
            0 <= n % w < w,
    ;
}

/// The bytes of a frame of `height` rows of `stride` bytes each, of which
/// only the first `4 * width` bytes of each row hold pixels, without the
/// padding. A single row shorter than its pixels stays as it is.
pub open spec fn unpadded(data: Seq<u8>, width: int, height: int, stride: int) -> Seq<u8> {
    if stride <= 4 * width {
        data
    } else {
        Seq::new(
            (4 * width * height) as nat,
            |i: int| data[i / (4 * width) * stride + i % (4 * width)],
        )
    }
}

/// Drops the padding at the end of each row of `stride` bytes.
pub fn drop_row_padding(data: &mut Vec<u8>, width: u32, height: u32, stride: u32)
    requires
        4 * width <= usize::MAX,
        old(data)@.len() == stride * height,
        height >= 2 ==> 4 * width <= stride,
    ensures
        final(data)@ == unpadded(old(data)@, width as int, height as int, stride as int),
{
    let row_bytes: usize = width as usize * 4;
    if stride as usize <= row_bytes {
        return;
    }
    let ghost before = data@;
    let len = data.len();
    let mut row: usize = 0;
    let mut to: usize = 0;
    while row < height as usize
        invariant
            row_bytes == 4 * width,
            row_bytes < stride,
            row <= height,
            to == row * row_bytes,
            len == before.len(),
            before.len() == stride * height,
            data@.len() == before.len(),
            forall|i: int|
                0 <= i < to ==> data@[i] == before[i / row_bytes as int * stride + i
                    % row_bytes as int],
            forall|i: int| to <= i < before.len() ==> data@[i] == before[i],
        decreases height - row,
    {
        assert(0 <= row * stride && row * stride + stride <= stride * height) by (nonlinear_arith)
            requires
                row < height,
        ;
        assert(row * row_bytes <= row * stride) by (nonlinear_arith)
            requires
                row_bytes < stride,
        ;
        assert((row + 1) * row_bytes == row * row_bytes + row_bytes) by (nonlinear_arith);
        let from: usize = row * stride as usize;
        let mut column: usize = 0;
        while column < row_bytes
            invariant
                row_bytes == 4 * width,
                row_bytes < stride,
                column <= row_bytes,
                row < height,
                from == row * stride,
                to == row * row_bytes + column,
                row * row_bytes <= from,
                from + stride <= len,
                len == before.len(),
                data@.len() == before.len(),
                forall|i: int|
                0 <= i < to ==> data@[i] == before[i / row_bytes as int * stride + i
                    % row_bytes as int],
                forall|i: int| to <= i < before.len() ==> data@[i] == before[i],
            decreases row_bytes - column,
        {
            proof {
                cell_number(column as int, row as int, row_bytes as int, height as int);
            }
            data[to] = data[from + column];
            column = column + 1;
            to = to + 1;
        }
        row = row + 1;
    }
    assert(row_bytes * height <= stride * height) by (nonlinear_arith)
        requires
            row_bytes < stride,
    ;
    assert(to == 4 * width * height) by (nonlinear_arith)
        requires
            to == height * row_bytes,
            row_bytes == 4 * width,
    ;
    data.truncate(to);
    assert(data@ =~= unpadded(before, width as int, height as int, stride as int));
}

/// Whether undoing the transform exchanges rows and columns.
pub open spec fn swaps_axes(transform: Transform) -> bool {
    transform == Transform::Rotated90 || transform == Transform::Rotated270 || transform
        == Transform::Flipped90 || transform == Transform::Flipped270
}

/// Whether undoing the transform, after any exchange of rows and columns,
/// mirrors the image left to right.
pub open spec fn mirrors_x(transform: Transform) -> bool {
    transform == Transform::Rotated90 || transform == Transform::Rotated180 || transform
        == Transform::Flipped || transform == Transform::Flipped90
}

/// Whether undoing the transform, after any exchange of rows and columns,
/// mirrors the image top to bottom.
pub open spec fn mirrors_y(transform: Transform) -> bool {
    transform == Transform::Rotated180 || transform == Transform::Rotated270 || transform
        == Transform::Flipped90 || transform == Transform::Flipped180
}

/// Width of an upright image whose native size is `width` by `height`.
pub open spec fn upright_width(width: int, height: int, transform: Transform) -> int {
    if swaps_axes(transform) {
        height
    } else {
        width
    }
}

/// Height of an upright image whose native size is `width` by `height`.
pub open spec fn upright_height(width: int, height: int, transform: Transform) -> int {
    if swaps_axes(transform) {
        width
    } else {
        height
    }
}

/// Column at which the native pixel `(x, y)` appears on screen.
pub open spec fn upright_x(x: int, y: int, width: int, height: int, transform: Transform) -> int {
    let along = if swaps_axes(transform) {
        y
    } else {
        x
    };
    if mirrors_x(transform) {
        upright_width(width, height, transform) - 1 - along
    } else {
        along
    }
}

/// Row at which the native pixel `(x, y)` appears on screen.
pub open spec fn upright_y(x: int, y: int, width: int, height: int, transform: Transform) -> int {
    let down = if swaps_axes(transform) {
        x
    } else {
        y
    };
    if mirrors_y(transform) {
        upright_height(width, height, transform) - 1 - down
    } else {
        down
    }
}

/// The transform that puts back what undoing `transform` moved.
pub open spec fn inverse(transform: Transform) -> Transform {
    match transform {
        Transform::Rotated90 => Transform::Rotated270,
        Transform::Rotated270 => Transform::Rotated90,
        _ => transform,
    }
}

/// Number, in reading order, of the native pixel that appears on screen as
/// pixel number `n`.
pub open spec fn native_pixel(n: int, width: int, height: int, transform: Transform) -> int {
    let across = upright_width(width, height, transform);
    let down = upright_height(width, height, transform);
    let x = upright_x(n % across, n / across, across, down, inverse(transform));
    let y = upright_y(n % across, n / across, across, down, inverse(transform));
    y * width + x
}

/// The image of native size `width` by `height` with an output transform
/// undone: every pixel where it appears on screen. Bytes after the last pixel
/// become zero, except where there is nothing to undo.
pub open spec fn upright(data: Seq<u8>, width: int, height: int, transform: Transform) -> Seq<u8> {
    if transform == Transform::Normal {
        data
    } else {
        Seq::new(
            data.len(),
            |i: int|
                if i < 4 * (width * height) {
                    data[4 * native_pixel(i / 4, width, height, transform) + i % 4]
                } else {
                    0
                },
        )
    }
}

/// Undoing a transform keeps every pixel inside the image, and undoing its
/// inverse puts the pixel back.
pub proof fn inverse_moves_pixel_back(x: int, y: int, width: int, height: int, transform: Transform)
    requires
        0 <= x < width,
        0 <= y < height,
    ensures
        ({
            let across = upright_width(width, height, transform);
            let down = upright_height(width, height, transform);
            let to_x = upright_x(x, y, width, height, transform);
            let to_y = upright_y(x, y, width, height, transform);
            &&& 0 <= to_x < across
            &&& 0 <= to_y < down
            &&& upright_width(across, down, inverse(transform)) == width
            &&& upright_height(across, down, inverse(transform)) == height
            &&& upright_x(to_x, to_y, across, down, inverse(transform)) == x
            &&& upright_y(to_x, to_y, across, down, inverse(transform)) == y
        }),
{
}

/// A pixel on screen comes from a pixel of the native image.
proof fn native_pixel_in_image(x: int, y: int, width: int, height: int, transform: Transform)
    requires
        0 <= width,
        0 <= height,
        0 <= x < upright_width(width, height, transform),
        0 <= y < upright_height(width, height, transform),
    ensures
        ({
            let across = upright_width(width, height, transform);
            let down = upright_height(width, height, transform);
            let from_x = upright_x(x, y, across, down, inverse(transform));
            let from_y = upright_y(x, y, across, down, inverse(transform));
            &&& 0 <= from_x < width
            &&& 0 <= from_y < height
            &&& 0 <= y * across + x < width * height
            &&& (y * across + x) / across == y
            &&& (y * across + x) % across == x
            &&& 0 <= from_y * width + from_x < width * height
            &&& native_pixel(y * across + x, width, height, transform) == from_y * width + from_x
        }),
{
    let across = upright_width(width, height, transform);
    let down = upright_height(width, height, transform);
    assert(across * down == width * height) by (nonlinear_arith)
        requires
            across == width && down == height || across == height && down == width,
    ;
    cell_number(x, y, across, down);
    inverse_moves_pixel_back(x, y, across, down, inverse(transform));
    cell_number(
        upright_x(x, y, across, down, inverse(transform)),
        upright_y(x, y, across, down, inverse(transform)),
        width,
        height,
    );
}

/// The four bytes of pixel number `n` of an upright image.
proof fn upright_bytes(data: Seq<u8>, width: int, height: int, transform: Transform, n: int)
    requires
        transform != Transform::Normal,
        0 <= n < width * height,
        4 * (width * height) <= data.len(),
    ensures
        forall|i: int|
            4 * n <= i < 4 * n + 4 ==> #[trigger] upright(data, width, height, transform)[i]
                == data[4 * native_pixel(n, width, height, transform) + i - 4 * n],
{
    assert forall|i: int| 4 * n <= i < 4 * n + 4 implies #[trigger] upright(
        data,
        width,
        height,
        transform,
    )[i] == data[4 * native_pixel(n, width, height, transform) + i - 4 * n] by {
        assert(i / 4 == n && i % 4 == i - 4 * n);
    }
}

/// The three parts of undoing a transform: exchange rows and columns, then
/// mirror left to right, then mirror top to bottom.
fn undo_steps(transform: Transform) -> (steps: (bool, bool, bool))
    ensures
        steps == (swaps_axes(transform), mirrors_x(transform), mirrors_y(transform)),
{
    match transform {
        Transform::Normal => (false, false, false),
        Transform::Rotated90 => (true, true, false),
        Transform::Rotated180 => (false, true, true),
        Transform::Rotated270 => (true, false, true),
        Transform::Flipped => (false, true, false),
        Transform::Flipped90 => (true, true, true),
        Transform::Flipped180 => (false, false, true),
        Transform::Flipped270 => (true, false, false),
    }
}

/// Width and height of an upright image whose native size is `width` by
/// `height`.
fn upright_size(width: u32, height: u32, transform: Transform) -> (size: (u32, u32))
    ensures
        size.0 == upright_width(width as int, height as int, transform),
        size.1 == upright_height(width as int, height as int, transform),
{
    let (swap, _, _) = undo_steps(transform);
    if swap {
        (height, width)
    } else {
        (width, height)
    }
}

/// Offset of the native pixel that appears on screen at `(x, y)`.
fn native_offset(x: usize, y: usize, width: u32, height: u32, transform: Transform) -> (from: usize)
    requires
        x < upright_width(width as int, height as int, transform),
        y < upright_height(width as int, height as int, transform),
        4 * (width * height) <= usize::MAX,
    ensures
        from == 4 * native_pixel(
            y * upright_width(width as int, height as int, transform) + x,
            width as int,
            height as int,
            transform,
        ),
        from + 4 <= 4 * (width * height),
{
    proof {
        native_pixel_in_image(x as int, y as int, width as int, height as int, transform);
    }
    let (swap, flip_x, flip_y) = undo_steps(transform);
    let (across, down) = upright_size(width, height, transform);
    let turned_x: usize = if flip_x {
        across as usize - 1 - x
    } else {
        x
    };
    let turned_y: usize = if flip_y {
        down as usize - 1 - y
    } else {
        y
    };
    let (from_x, from_y): (usize, usize) = if swap {
        (turned_y, turned_x)
    } else {
        (turned_x, turned_y)
    };
    assert(0 <= from_y * width) by (nonlinear_arith);
    (from_y * width as usize + from_x) * 4
}

/// Appends the pixel at offset `from` of `data`.
fn push_pixel(out: &mut Vec<u8>, data: &Vec<u8>, from: usize)
    requires
        from + 4 <= data.len(),
    ensures
        final(out)@ == old(out)@ + data@.subrange(from as int, from + 4),
{
    out.push(data[from]);
    out.push(data[from + 1]);
    out.push(data[from + 2]);
    out.push(data[from + 3]);
    assert(out@ =~= old(out)@ + data@.subrange(from as int, from + 4));
}

/// Undoes an output transform: maps every native pixel to where it appears on
/// screen. Quarter turns exchange the image's width and height.
pub fn apply_transform(data: Vec<u8>, width: u32, height: u32, transform: Transform) -> (image: (
    Vec<u8>,
    u32,
    u32,
))
    requires
        transform != Transform::Normal ==> 4 * (width * height) <= data@.len(),
    ensures
        image.0@ == upright(data@, width as int, height as int, transform),
        image.1 == upright_width(width as int, height as int, transform),
        image.2 == upright_height(width as int, height as int, transform),
{
    if transform == Transform::Normal {
        return (data, width, height);
    }
    let (across, down) = upright_size(width, height, transform);
    let len = data.len();
    let ghost after = upright(data@, width as int, height as int, transform);
    let mut out: Vec<u8> = Vec::with_capacity(len);
    let mut y: usize = 0;
    assert(down * across == width * height) by (nonlinear_arith)
        requires
            across == width && down == height || across == height && down == width,
    ;
    while y < down as usize
        invariant
            transform != Transform::Normal,
            across == upright_width(width as int, height as int, transform),
            down == upright_height(width as int, height as int, transform),
            len == data@.len(),
            4 * (width * height) <= len,
            after == upright(data@, width as int, height as int, transform),
            y <= down,
            out@.len() == 4 * (y * across),
            forall|i: int| 0 <= i < out@.len() ==> out@[i] == after[i],
        decreases down - y,
    {
        let mut x: usize = 0;
        while x < across as usize
            invariant
                transform != Transform::Normal,
                across == upright_width(width as int, height as int, transform),
                down == upright_height(width as int, height as int, transform),
                len == data@.len(),
                4 * (width * height) <= len,
                after == upright(data@, width as int, height as int, transform),
                y < down,
                x <= across,
                out@.len() == 4 * (y * across + x),
                forall|i: int| 0 <= i < out@.len() ==> out@[i] == after[i],
            decreases across - x,
        {
            let ghost n = y * across + x;
            proof {
                native_pixel_in_image(x as int, y as int, width as int, height as int, transform);
                upright_bytes(data@, width as int, height as int, transform, n);
            }
            let from = native_offset(x, y, width, height, transform);
            push_pixel(&mut out, &data, from);
            x = x + 1;
        }
        assert((y + 1) * across == y * across + across) by (nonlinear_arith);
        y = y + 1;
    }
    while out.len() < len
        invariant
            transform != Transform::Normal,
            len == data@.len(),
            after == upright(data@, width as int, height as int, transform),
            4 * (width * height) <= out@.len() <= len,
            forall|i: int| 0 <= i < out@.len() ==> out@[i] == after[i],
        decreases len - out@.len(),
    {
        out.push(0);
    }
    assert(out@ =~= after);
    (out, across, down)
}

/// Offset, in an image of `height` rows of `row_bytes` bytes, of the byte that
/// a vertical flip moves to offset `i`.
pub open spec fn flipped_offset(i: int, row_bytes: int, height: int) -> int {
    (height - 1 - i / row_bytes) * row_bytes + i % row_bytes
}

/// An image upside down; bytes after its last row stay as they are.
pub open spec fn flipped(data: Seq<u8>, width: int, height: int) -> Seq<u8> {
    Seq::new(
        data.len(),
        |i: int|
            if i < 4 * width * height {
                data[flipped_offset(i, 4 * width, height)]
            } else {
                data[i]
            },
    )
}

/// A vertical flip moves every byte to the same column of the mirrored row,
/// and a second one moves it back.
proof fn flipped_offset_involutive(i: int, row_bytes: int, height: int)
    requires
        0 <= row_bytes,
        0 <= height,
        0 <= i < row_bytes * height,
    ensures
        0 <= flipped_offset(i, row_bytes, height) < row_bytes * height,
        flipped_offset(i, row_bytes, height) / row_bytes == height - 1 - i / row_bytes,
        flipped_offset(i, row_bytes, height) % row_bytes == i % row_bytes,
        flipped_offset(flipped_offset(i, row_bytes, height), row_bytes, height) == i,
{
    cell_position(i, row_bytes, height);
    cell_number(i % row_bytes, height - 1 - i / row_bytes, row_bytes, height);
}

/// `data` with the bytes before offset `done`, and their counterparts,
/// exchanged.
spec fn half_flipped(data: Seq<u8>, width: int, height: int, done: int) -> Seq<u8> {
    Seq::new(
        data.len(),
        |i: int|
            if i < 4 * width * height && (i < done || flipped_offset(i, 4 * width, height) < done) {
                data[flipped_offset(i, 4 * width, height)]
            } else {
                data[i]
            },
    )
}

/// Exchanging one more byte of the upper half with its counterpart.
proof fn half_flipped_step(data: Seq<u8>, width: int, height: int, row: int, column: int)
    requires
        0 <= row < height / 2,
        0 <= column < 4 * width,
        4 * width * height <= data.len(),
    ensures
        ({
            let at = row * (4 * width) + column;
            let other = (height - 1 - row) * (4 * width) + column;
            let now = half_flipped(data, width, height, at);
            &&& 0 <= at < other < data.len()
            &&& half_flipped(data, width, height, at + 1) == now.update(at, now[other]).update(
                other,
                now[at],
            )
        }),
{
    let row_bytes = 4 * width;
    let at = row * row_bytes + column;
    let other = (height - 1 - row) * row_bytes + column;
    let now = half_flipped(data, width, height, at);
    let next = half_flipped(data, width, height, at + 1);
    cell_number(column, row, row_bytes, height);
    cell_number(column, height - 1 - row, row_bytes, height);
    assert(at < other) by (nonlinear_arith)
        requires
            at == row * row_bytes + column,
            other == (height - 1 - row) * row_bytes + column,
            row < height - 1 - row,
            0 < row_bytes,
    ;
    flipped_offset_involutive(at, row_bytes, height);
    flipped_offset_involutive(other, row_bytes, height);
    let made = now.update(at, now[other]).update(other, now[at]);
    assert forall|i: int| 0 <= i < data.len() implies next[i] == made[i] by {
        if i < row_bytes * height {
            flipped_offset_involutive(i, row_bytes, height);
        }
    }
    assert(next =~= made);
}

/// Once the upper half is exchanged with the lower one, the image is upside
/// down.
proof fn half_flipped_ends(data: Seq<u8>, width: int, height: int)
    requires
        0 <= width,
        0 <= height,
        4 * width * height <= data.len(),
    ensures
        half_flipped(data, width, height, 0) == data,
        half_flipped(data, width, height, height / 2 * (4 * width)) == flipped(data, width, height),
{
    let row_bytes = 4 * width;
    let half = height / 2 * row_bytes;
    assert forall|i: int| 0 <= i < row_bytes * height implies flipped_offset(i, row_bytes, height) >= 0 && (i
        < half || flipped_offset(i, row_bytes, height) < half || flipped_offset(i, row_bytes, height)
        == i) by {
        flipped_offset_involutive(i, row_bytes, height);
        cell_position(i, row_bytes, height);
        let row = i / row_bytes;
        if row < height / 2 {
            assert(row * row_bytes + row_bytes <= half) by (nonlinear_arith)
                requires
                    half == height / 2 * row_bytes,
                    row < height / 2,
                    0 < row_bytes,
            ;
        } else if height - 1 - row < height / 2 {
            assert((height - 1 - row) * row_bytes + row_bytes <= half) by (nonlinear_arith)
                requires
                    half == height / 2 * row_bytes,
                    height - 1 - row < height / 2,
                    0 < row_bytes,
            ;
        }
    }
    assert(half_flipped(data, width, height, 0) =~= data);
    assert(half_flipped(data, width, height, half) =~= flipped(data, width, height));
}

/// An image of at most one row is its own vertical flip.
proof fn flipped_single_row(data: Seq<u8>, width: int, height: int)
    requires
        0 <= width,
        0 <= height < 2,
    ensures
        flipped(data, width, height) == data,
{
    let row_bytes = 4 * width;
    assert forall|i: int| 0 <= i < row_bytes * height implies flipped_offset(i, row_bytes, height)
        == i by {
        cell_position(i, row_bytes, height);
    }
    assert(flipped(data, width, height) =~= data);
}

/// Turns an image upside down in place.
pub fn flip_vertical_in_place(data: &mut [u8], width: u32, height: u32)
    requires
        height >= 2 ==> 4 * width * height <= old(data)@.len(),
    ensures
        final(data)@ == flipped(old(data)@, width as int, height as int),
{
    let ghost before = data@;
    if height < 2 {
        proof {
            flipped_single_row(before, width as int, height as int);
        }
        return;
    }
    let len = data.len();
    assert(4 * width <= 4 * width * height) by (nonlinear_arith)
        requires
            height >= 2,
    ;
    let row_bytes: usize = width as usize * 4;
    proof {
        half_flipped_ends(before, width as int, height as int);
    }
    let mut row: usize = 0;
    while row < height as usize / 2
        invariant
            row <= height / 2,
            row_bytes == 4 * width,
            len == data@.len(),
            len == before.len(),
            4 * width * height <= len,
            data@ == half_flipped(before, width as int, height as int, row * row_bytes),
        decreases height / 2 - row,
    {
        let mut column: usize = 0;
        while column < row_bytes
            invariant
                row < height / 2,
                column <= row_bytes,
                row_bytes == 4 * width,
                len == data@.len(),
                len == before.len(),
                4 * width * height <= len,
                data@ == half_flipped(before, width as int, height as int, row * row_bytes + column),
            decreases row_bytes - column,
        {
            proof {
                half_flipped_step(before, width as int, height as int, row as int, column as int);
            }
            assert(0 <= row * row_bytes && 0 <= (height - 1 - row) * row_bytes) by (nonlinear_arith)
                requires
                    row < height,
            ;
            let at: usize = row * row_bytes + column;
            let other: usize = (height as usize - 1 - row) * row_bytes + column;
            let byte = data[at];
            data[at] = data[other];
            data[other] = byte;
            column = column + 1;
        }
        assert((row + 1) * row_bytes == row * row_bytes + row_bytes) by (nonlinear_arith);
        row = row + 1;
    }
}

/// The converted bytes of the pixel at column `x` of row `y`, once the row
/// padding is gone.
pub(crate) proof fn packed_pixel(
    data: Seq<u8>,
    width: int,
    height: int,
    stride: int,
    format: ShmFormat,
    x: int,
    y: int,
    k: int,
)
    requires
        4 * width <= stride,
        data.len() == stride * height,
        0 <= x < width,
        0 <= y < height,
        0 <= k < 4,
    ensures
        converted(unpadded(data, width, height, stride), format)[4 * (y * width + x) + k] == channel(
            rgba_at(data, y * stride + 4 * x, format),
            k,
        ),
{
    let packed = unpadded(data, width, height, stride);
    let at = 4 * (y * width + x);
    cell_number(x, y, width, height);
    assert(4 * width * height == 4 * (width * height)) by (nonlinear_arith);
    assert(4 * (y * width) == y * (4 * width)) by (nonlinear_arith);
    assert forall|j: int| 0 <= j < 4 implies #[trigger] packed[at + j] == data[y * stride + 4 * x + j] by {
        cell_number(4 * x + j, y, 4 * width, height);
    }
    assert(packed[at + 0] == data[y * stride + 4 * x + 0]);
    assert(packed[at + 1] == data[y * stride + 4 * x + 1]);
    assert(packed[at + 2] == data[y * stride + 4 * x + 2]);
    assert(packed[at + 3] == data[y * stride + 4 * x + 3]);
    converted_pixel(packed, format, at);
}

/// Undoing a transform maps every native pixel to where it appears on screen.
pub proof fn undoing_places_every_pixel(
    data: Seq<u8>,
    width: int,
    height: int,
    transform: Transform,
    x: int,
    y: int,
    k: int,
)
    requires
        4 * (width * height) <= data.len(),
        0 <= x < width,
        0 <= y < height,
        0 <= k < 4,
    ensures
        ({
            let across = upright_width(width, height, transform);
            let to_x = upright_x(x, y, width, height, transform);
            let to_y = upright_y(x, y, width, height, transform);
            &&& 0 <= 4 * (to_y * across + to_x) + k < 4 * (width * height)
            &&& upright(data, width, height, transform)[4 * (to_y * across + to_x) + k] == data[4 * (y
                * width + x) + k]
        }),
{
    let across = upright_width(width, height, transform);
    let down = upright_height(width, height, transform);
    let to_x = upright_x(x, y, width, height, transform);
    let to_y = upright_y(x, y, width, height, transform);
    inverse_moves_pixel_back(x, y, width, height, transform);
    native_pixel_in_image(to_x, to_y, width, height, transform);
    if transform != Transform::Normal {
        upright_bytes(data, width, height, transform, to_y * across + to_x);
    }
}

/// Undoing a transform and then its inverse gives the image back. A half turn
/// and the four flips are their own inverses; the two quarter turns undo each
/// other.
pub proof fn undoing_inverse_restores_image(
    data: Seq<u8>,
    width: int,
    height: int,
    transform: Transform,
)
    requires
        0 <= width,
        0 <= height,
        4 * (width * height) <= data.len(),
    ensures
        ({
            let across = upright_width(width, height, transform);
            let down = upright_height(width, height, transform);
            let turned = upright(data, width, height, transform);
            upright(turned, across, down, inverse(transform)).take(4 * (width * height))
                == data.take(4 * (width * height))
        }),
{
    let across = upright_width(width, height, transform);
    let down = upright_height(width, height, transform);
    let turned = upright(data, width, height, transform);
    let back = upright(turned, across, down, inverse(transform));
    assert(across * down == width * height) by (nonlinear_arith)
        requires
            across == width && down == height || across == height && down == width,
    ;
    assert forall|i: int| 0 <= i < 4 * (width * height) implies back[i] == data[i] by {
        let n = i / 4;
        cell_position(n, width, height);
        let x = n % width;
        let y = n / width;
        let to_x = upright_x(x, y, width, height, transform);
        let to_y = upright_y(x, y, width, height, transform);
        inverse_moves_pixel_back(x, y, width, height, transform);
        undoing_places_every_pixel(data, width, height, transform, x, y, i % 4);
        undoing_places_every_pixel(turned, across, down, inverse(transform), to_x, to_y, i % 4);
    }
    assert(back.take(4 * (width * height)) =~= data.take(4 * (width * height)));
}

/// Two vertical flips give the image back.
pub proof fn flipping_twice_restores_image(data: Seq<u8>, width: int, height: int)
    requires
        0 <= width,
        0 <= height,
        height >= 2 ==> 4 * width * height <= data.len(),
    ensures
        flipped(flipped(data, width, height), width, height) == data,
{
    if height < 2 {
        flipped_single_row(data, width, height);
    }
    let row_bytes = 4 * width;
    assert forall|i: int| 0 <= i < row_bytes * height implies 0 <= flipped_offset(i, row_bytes, height)
        < row_bytes * height && flipped_offset(
        #[trigger] flipped_offset(i, row_bytes, height),
        row_bytes,
        height,
    ) == i by {
        flipped_offset_involutive(i, row_bytes, height);
    }
    assert(flipped(flipped(data, width, height), width, height) =~= data);
}

/// A vertical flip moves the pixel at column `x` of row `y` to the same
/// column of the row as far from the bottom as `y` is from the top.
pub proof fn flip_mirrors_rows(data: Seq<u8>, width: int, height: int, x: int, y: int, k: int)
    requires
        4 * (width * height) <= data.len(),
        0 <= x < width,
        0 <= y < height,
        0 <= k < 4,
    ensures
        0 <= 4 * ((height - 1 - y) * width + x) + k < 4 * (width * height),
        flipped(data, width, height)[4 * ((height - 1 - y) * width + x) + k] == data[4 * (y * width + x)
            + k],
{
    let row_bytes = 4 * width;
    let i = 4 * ((height - 1 - y) * width + x) + k;
    let from = 4 * (y * width + x) + k;
    cell_number(x, y, width, height);
    cell_number(x, height - 1 - y, width, height);
    cell_number(4 * x + k, height - 1 - y, row_bytes, height);
    assert(i == (height - 1 - y) * row_bytes + (4 * x + k)) by (nonlinear_arith)
        requires
            i == 4 * ((height - 1 - y) * width + x) + k,
            row_bytes == 4 * width,
    ;
    assert(from == y * row_bytes + (4 * x + k)) by (nonlinear_arith)
        requires
            from == 4 * (y * width + x) + k,
            row_bytes == 4 * width,
    ;
    assert(4 * width * height == 4 * (width * height)) by (nonlinear_arith);
}

/// Undoing a half turn combined with a flip is turning the image upside down.
pub proof fn undoing_flipped_half_turn_is_vertical_flip(data: Seq<u8>, width: int, height: int)
    requires
        0 <= width,
        0 <= height,
        data.len() == 4 * (width * height),
    ensures
        upright(data, width, height, Transform::Flipped180) == flipped(data, width, height),
{
    let turned = upright(data, width, height, Transform::Flipped180);
    assert forall|i: int| 0 <= i < data.len() implies turned[i] == flipped(data, width, height)[i] by {
        let n = i / 4;
        cell_position(n, width, height);
        let x = n % width;
        let y = height - 1 - n / width;
        undoing_places_every_pixel(data, width, height, Transform::Flipped180, x, y, i % 4);
        flip_mirrors_rows(data, width, height, x, y, i % 4);
    }
    assert(turned =~= flipped(data, width, height));
}

/// Whether a layout carries no alpha.
pub open spec fn lacks_alpha(format: ShmFormat) -> bool {
    format == ShmFormat::Xrgb8888 || format == ShmFormat::Xbgr8888 || format
        == ShmFormat::Xrgb2101010 || format == ShmFormat::Xbgr2101010
}

/// A frame in a layout without alpha becomes fully opaque.
pub proof fn frames_without_alpha_are_opaque(data: Seq<u8>, format: ShmFormat, n: int)
    requires
        lacks_alpha(format),
        0 <= n,
        4 * n + 4 <= data.len(),
    ensures
        converted(data, format)[4 * n + 3] == 255,
{
    converted_pixel(data, format, 4 * n);
}

/// A frame that is RGBA in memory already stays as it is.
pub proof fn rgba_frames_are_unchanged(data: Seq<u8>)
    ensures
        converted(data, ShmFormat::Abgr8888) == data,
{
    assert forall|i: int| 0 <= i < data.len() implies converted(data, ShmFormat::Abgr8888)[i]
        == data[i] by {
        assert(i == i / 4 * 4 + i % 4);
    }
    assert(converted(data, ShmFormat::Abgr8888) =~= data);
}

/// Undoing a quarter turn exchanges width and height; undoing any other
/// transform keeps them.
pub proof fn quarter_turns_exchange_width_and_height(width: int, height: int)
    ensures
        upright_width(width, height, Transform::Normal) == width,
        upright_width(width, height, Transform::Rotated90) == height,
        upright_width(width, height, Transform::Rotated180) == width,
        upright_width(width, height, Transform::Rotated270) == height,
        upright_width(width, height, Transform::Flipped) == width,
        upright_width(width, height, Transform::Flipped90) == height,
        upright_width(width, height, Transform::Flipped180) == width,
        upright_width(width, height, Transform::Flipped270) == height,
        upright_height(width, height, Transform::Normal) == height,
        upright_height(width, height, Transform::Rotated90) == width,
        upright_height(width, height, Transform::Rotated180) == height,
        upright_height(width, height, Transform::Rotated270) == width,
        upright_height(width, height, Transform::Flipped) == height,
        upright_height(width, height, Transform::Flipped90) == width,
        upright_height(width, height, Transform::Flipped180) == height,
        upright_height(width, height, Transform::Flipped270) == width,
{
}

/// Where each byte of the native pixel at column `x` of row `y` stands once a
/// transform is undone. The upright image of a quarter turn has rows of
/// `height` pixels, every other one has rows of `width` pixels.
pub proof fn undone_pixels_stand_where_they_appear(
    data: Seq<u8>,
    width: int,
    height: int,
    x: int,
    y: int,
    k: int,
)
    requires
        4 * (width * height) <= data.len(),
        0 <= x < width,
        0 <= y < height,
        0 <= k < 4,
    ensures
        upright(data, width, height, Transform::Normal)[4 * (y * width + x) + k] == data[4 * (y * width
            + x) + k],
        upright(data, width, height, Transform::Rotated90)[4 * (x * height + (height - 1 - y)) + k]
            == data[4 * (y * width + x) + k],
        upright(data, width, height, Transform::Rotated180)[4 * ((height - 1 - y) * width + (width - 1
            - x)) + k] == data[4 * (y * width + x) + k],
        upright(data, width, height, Transform::Rotated270)[4 * ((width - 1 - x) * height + y) + k]
            == data[4 * (y * width + x) + k],
        upright(data, width, height, Transform::Flipped)[4 * (y * width + (width - 1 - x)) + k]
            == data[4 * (y * width + x) + k],
        upright(data, width, height, Transform::Flipped90)[4 * ((width - 1 - x) * height + (height - 1
            - y)) + k] == data[4 * (y * width + x) + k],
        upright(data, width, height, Transform::Flipped180)[4 * ((height - 1 - y) * width + x) + k]
            == data[4 * (y * width + x) + k],
        upright(data, width, height, Transform::Flipped270)[4 * (x * height + y) + k] == data[4 * (y
            * width + x) + k],
{
    undoing_places_every_pixel(data, width, height, Transform::Rotated90, x, y, k);
    undoing_places_every_pixel(data, width, height, Transform::Rotated180, x, y, k);
    undoing_places_every_pixel(data, width, height, Transform::Rotated270, x, y, k);
    undoing_places_every_pixel(data, width, height, Transform::Flipped, x, y, k);
    undoing_places_every_pixel(data, width, height, Transform::Flipped90, x, y, k);
    undoing_places_every_pixel(data, width, height, Transform::Flipped180, x, y, k);
    undoing_places_every_pixel(data, width, height, Transform::Flipped270, x, y, k);
}

/// Undoing a transform keeps the number of bytes. Without a transform nothing
/// changes at all; otherwise the bytes after the last pixel become zero.
pub proof fn undoing_keeps_length_and_clears_the_rest(
    data: Seq<u8>,
    width: int,
    height: int,
    transform: Transform,
)
    requires
        0 <= width,
        0 <= height,
    ensures
        upright(data, width, height, Transform::Normal) == data,
        upright(data, width, height, transform).len() == data.len(),
        transform != Transform::Normal ==> forall|i: int|
            4 * (width * height) <= i < data.len() ==> #[trigger] upright(
                data,
                width,
                height,
                transform,
            )[i] == 0,
{
    assert(0 <= width * height) by (nonlinear_arith)
        requires
            0 <= width,
            0 <= height,
    ;
}

/// The ten-bit fields of a little-endian word, without their two lowest bits,
/// and its two-bit field in thirds of 255, by the bytes of the word.
proof fn fields_by_bytes(b0: u8, b1: u8, b2: u8, b3: u8)
    ensures
        ({
            let word = b0 + 0x100 * b1 + 0x1_0000 * b2 + 0x100_0000 * b3;
            &&& ten_bit_field(word, 0) == b0 / 4 + 64 * (b1 % 4)
            &&& ten_bit_field(word, 10) == b1 / 16 + 16 * (b2 % 16)
            &&& ten_bit_field(word, 20) == b2 / 64 + 4 * (b3 % 64)
            &&& (word / 0x4000_0000 * 85) as u8 == b3 / 64 * 85
        }),
{
    let word = b0 + 0x100 * b1 + 0x1_0000 * b2 + 0x100_0000 * b3;
    let (c0, c1, c2, c3) = (b0 as int, b1 as int, b2 as int, b3 as int);
    lemma_fundamental_div_mod_converse(
        word,
        0x400,
        c1 / 4 + 64 * c2 + 0x4000 * c3,
        c0 + 256 * (c1 % 4),
    );
    lemma_fundamental_div_mod_converse(
        c1 / 4 + 64 * c2 + 0x4000 * c3,
        0x400,
        c2 / 16 + 16 * c3,
        c1 / 4 + 64 * (c2 % 16),
    );
    lemma_fundamental_div_mod_converse(
        word,
        0x10_0000,
        c2 / 16 + 16 * c3,
        c0 + 256 * c1 + 0x1_0000 * (c2 % 16),
    );
    lemma_fundamental_div_mod_converse(
        c2 / 16 + 16 * c3,
        0x400,
        c3 / 64,
        c2 / 16 + 16 * (c3 % 64),
    );
    lemma_fundamental_div_mod_converse(
        word,
        0x4000_0000,
        c3 / 64,
        c0 + 256 * c1 + 0x1_0000 * c2 + 0x100_0000 * (c3 % 64),
    );
}

/// The pixels that four bytes stand for in the eight-bit layouts.
proof fn eight_bit_pixels_by_bytes(b0: u8, b1: u8, b2: u8, b3: u8)
    ensures
        rgba_of(b0, b1, b2, b3, ShmFormat::Xrgb8888) == (Rgba { r: b2, g: b1, b: b0, a: 255 }),
        rgba_of(b0, b1, b2, b3, ShmFormat::Argb8888) == (Rgba { r: b2, g: b1, b: b0, a: b3 }),
        rgba_of(b0, b1, b2, b3, ShmFormat::Xbgr8888) == (Rgba { r: b0, g: b1, b: b2, a: 255 }),
        rgba_of(b0, b1, b2, b3, ShmFormat::Abgr8888) == (Rgba { r: b0, g: b1, b: b2, a: b3 }),
{
}

/// What each whole pixel of a frame in an eight-bit layout becomes, byte by
/// byte: red, green and blue are bytes of the pixel in the order of the layout,
/// and alpha is the pixel's last byte or 255.
pub proof fn eight_bit_pixels_are_reordered(data: Seq<u8>, n: int)
    requires
        0 <= n,
        4 * n + 4 <= data.len(),
    ensures
        converted(data, ShmFormat::Xrgb8888)[4 * n] == data[4 * n + 2],
        converted(data, ShmFormat::Xrgb8888)[4 * n + 1] == data[4 * n + 1],
        converted(data, ShmFormat::Xrgb8888)[4 * n + 2] == data[4 * n],
        converted(data, ShmFormat::Xrgb8888)[4 * n + 3] == 255,
        converted(data, ShmFormat::Argb8888)[4 * n] == data[4 * n + 2],
        converted(data, ShmFormat::Argb8888)[4 * n + 1] == data[4 * n + 1],
        converted(data, ShmFormat::Argb8888)[4 * n + 2] == data[4 * n],
        converted(data, ShmFormat::Argb8888)[4 * n + 3] == data[4 * n + 3],
        converted(data, ShmFormat::Xbgr8888)[4 * n] == data[4 * n],
        converted(data, ShmFormat::Xbgr8888)[4 * n + 1] == data[4 * n + 1],
        converted(data, ShmFormat::Xbgr8888)[4 * n + 2] == data[4 * n + 2],
        converted(data, ShmFormat::Xbgr8888)[4 * n + 3] == 255,
        converted(data, ShmFormat::Abgr8888)[4 * n] == data[4 * n],
        converted(data, ShmFormat::Abgr8888)[4 * n + 1] == data[4 * n + 1],
        converted(data, ShmFormat::Abgr8888)[4 * n + 2] == data[4 * n + 2],
        converted(data, ShmFormat::Abgr8888)[4 * n + 3] == data[4 * n + 3],
{
    eight_bit_pixels_by_bytes(data[4 * n], data[4 * n + 1], data[4 * n + 2], data[4 * n + 3]);
    converted_pixel(data, ShmFormat::Xrgb8888, 4 * n);
    converted_pixel(data, ShmFormat::Argb8888, 4 * n);
    converted_pixel(data, ShmFormat::Xbgr8888, 4 * n);
    converted_pixel(data, ShmFormat::Abgr8888, 4 * n);
}

/// What each whole pixel of a frame in a ten-bit layout becomes, by the bytes
/// of the pixel. The lowest field keeps its bits 2 to 9, which are the high six
/// bits of the first byte and the low two of the second; the next ones lie two
/// bits further each time, and the last two bits are alpha in thirds of 255.
pub proof fn ten_bit_pixels_keep_their_high_bits(data: Seq<u8>, n: int)
    requires
        0 <= n,
        4 * n + 4 <= data.len(),
    ensures
        converted(data, ShmFormat::Xrgb2101010)[4 * n] == data[4 * n + 2] / 64 + 4 * (data[4 * n + 3]
            % 64),
        converted(data, ShmFormat::Xrgb2101010)[4 * n + 1] == data[4 * n + 1] / 16 + 16 * (data[4 * n
            + 2] % 16),
        converted(data, ShmFormat::Xrgb2101010)[4 * n + 2] == data[4 * n] / 4 + 64 * (data[4 * n + 1]
            % 4),
        converted(data, ShmFormat::Xrgb2101010)[4 * n + 3] == 255,
        converted(data, ShmFormat::Argb2101010)[4 * n] == data[4 * n + 2] / 64 + 4 * (data[4 * n + 3]
            % 64),
        converted(data, ShmFormat::Argb2101010)[4 * n + 1] == data[4 * n + 1] / 16 + 16 * (data[4 * n
            + 2] % 16),
        converted(data, ShmFormat::Argb2101010)[4 * n + 2] == data[4 * n] / 4 + 64 * (data[4 * n + 1]
            % 4),
        converted(data, ShmFormat::Argb2101010)[4 * n + 3] == data[4 * n + 3] / 64 * 85,
        converted(data, ShmFormat::Xbgr2101010)[4 * n] == data[4 * n] / 4 + 64 * (data[4 * n + 1] % 4),
        converted(data, ShmFormat::Xbgr2101010)[4 * n + 1] == data[4 * n + 1] / 16 + 16 * (data[4 * n
            + 2] % 16),
        converted(data, ShmFormat::Xbgr2101010)[4 * n + 2] == data[4 * n + 2] / 64 + 4 * (data[4 * n
            + 3] % 64),
        converted(data, ShmFormat::Xbgr2101010)[4 * n + 3] == 255,
        converted(data, ShmFormat::Abgr2101010)[4 * n] == data[4 * n] / 4 + 64 * (data[4 * n + 1] % 4),
        converted(data, ShmFormat::Abgr2101010)[4 * n + 1] == data[4 * n + 1] / 16 + 16 * (data[4 * n
            + 2] % 16),
        converted(data, ShmFormat::Abgr2101010)[4 * n + 2] == data[4 * n + 2] / 64 + 4 * (data[4 * n
            + 3] % 64),
        converted(data, ShmFormat::Abgr2101010)[4 * n + 3] == data[4 * n + 3] / 64 * 85,
{
    fields_by_bytes(data[4 * n], data[4 * n + 1], data[4 * n + 2], data[4 * n + 3]);
    converted_pixel(data, ShmFormat::Xrgb2101010, 4 * n);
    converted_pixel(data, ShmFormat::Argb2101010, 4 * n);
    converted_pixel(data, ShmFormat::Xbgr2101010, 4 * n);
    converted_pixel(data, ShmFormat::Abgr2101010, 4 * n);
}

/// Conversion keeps the number of bytes and leaves alone what is no whole
/// pixel.
pub proof fn conversion_touches_whole_pixels_only(data: Seq<u8>, format: ShmFormat)
    ensures
        converted(data, format).len() == data.len(),
        forall|i: int|
            data.len() - data.len() % 4 <= i < data.len() ==> #[trigger] converted(data, format)[i]
                == data[i],
{
    assert forall|i: int| data.len() - data.len() % 4 <= i < data.len() implies #[trigger] converted(
        data,
        format,
    )[i] == data[i] by {
        assert(i / 4 * 4 + 4 > data.len());
    }
}

/// A frame in a layout that is not known stays as it is.
pub proof fn frames_in_other_layouts_are_unchanged(data: Seq<u8>)
    ensures
        converted(data, ShmFormat::Other) == data,
{
    assert forall|i: int| 0 <= i < data.len() implies converted(data, ShmFormat::Other)[i]
        == data[i] by {
        assert(i == i / 4 * 4 + i % 4);
    }
    assert(converted(data, ShmFormat::Other) =~= data);
}

/// Without its row padding, a frame holds the first `4 * width` bytes of each
/// of its rows, one row after the other, and nothing else.
pub proof fn rows_follow_each_other_without_padding(
    data: Seq<u8>,
    width: int,
    height: int,
    stride: int,
    row: int,
    i: int,
)
    requires
        data.len() == stride * height,
        4 * width <= stride,
        0 <= row < height,
        0 <= i < 4 * width,
    ensures
        unpadded(data, width, height, stride).len() == 4 * (width * height),
        unpadded(data, width, height, stride)[row * (4 * width) + i] == data[row * stride + i],
{
    cell_number(i, row, 4 * width, height);
    assert(4 * width * height == 4 * (width * height)) by (nonlinear_arith);
    assert(0 <= width * height) by (nonlinear_arith)
        requires
            0 < width,
            0 < height,
    ;
}

/// Without its row padding, a frame holds four bytes for each of its pixels.
pub proof fn unpadded_frames_hold_pixels_only(data: Seq<u8>, width: int, height: int, stride: int)
    requires
        0 <= width,
        0 <= height,
        4 * width <= stride,
        data.len() == stride * height,
    ensures
        unpadded(data, width, height, stride).len() == 4 * (width * height),
{
    assert(4 * width * height == 4 * (width * height) && 0 <= width * height) by (nonlinear_arith)
        requires
            0 <= width,
            0 <= height,
    ;
}

/// A frame whose rows have no padding stays as it is.
pub proof fn frames_without_padding_are_unchanged(
    data: Seq<u8>,
    width: int,
    height: int,
    stride: int,
)
    requires
        stride <= 4 * width,
    ensures
        unpadded(data, width, height, stride) == data,
{
}

/// A vertical flip keeps the number of bytes and those after the last row, and
/// changes nothing where there is at most one row.
pub proof fn flipping_keeps_length_and_the_rest(data: Seq<u8>, width: int, height: int)
    requires
        0 <= width,
        0 <= height,
    ensures
        flipped(data, width, height).len() == data.len(),
        forall|i: int|
            4 * (width * height) <= i < data.len() ==> #[trigger] flipped(data, width, height)[i]
                == data[i],
        height < 2 ==> flipped(data, width, height) == data,
{
    if height < 2 {
        flipped_single_row(data, width, height);
    }
    assert(4 * width * height == 4 * (width * height) && 0 <= width * height) by (nonlinear_arith)
        requires
            0 <= width,
            0 <= height,
    ;
}

} // verus!
