use vstd::prelude::*;
use vstd::arithmetic::div_mod::{
    lemma_div_is_ordered,
    lemma_div_is_ordered_by_denominator,
    lemma_fundamental_div_mod_converse,
    lemma_multiply_divide_lt,
};
use vstd::arithmetic::mul::{
    lemma_mul_inequality,
    lemma_mul_nonnegative,
    lemma_mul_strict_inequality,
};

verus! {

/// The brightness ramp, from darkest to brightest: `@%#*+=- . `.
pub open spec fn gradient() -> Seq<u8> {
    seq![64u8, 37u8, 35u8, 42u8, 43u8, 61u8, 45u8, 32u8, 46u8, 32u8]
}

/// The line terminator written after every row of ASCII art.
pub open spec fn newline() -> u8 {
    10u8
}

/// Perceived brightness of an RGB pixel, with integer weights 30/59/11.
pub open spec fn luminance(r: u8, g: u8, b: u8) -> u8 {
    ((r * 30 + g * 59 + b * 11) / 100) as u8
}

/// One brightness value per complete three-byte RGB chunk of `image`; a
/// trailing partial chunk is ignored.
pub open spec fn grayscale_of(image: Seq<u8>) -> Seq<u8> {
    Seq::new(
        image.len() / 3,
        |i: int| luminance(image[3 * i], image[3 * i + 1], image[3 * i + 2]),
    )
}

/// Index in the source grayscale buffer that nearest-neighbour sampling
/// reads for output pixel (`y`, `x`).
pub open spec fn sample_index(y: int, x: int, sw: int, sh: int, dw: int, dh: int) -> int {
    (y * sh / dh) * sw + x * sw / dw
}

/// The `dw` x `dh` nearest-neighbour resampling of the `sw` x `sh`
/// grayscale buffer `gray`, row by row.
pub open spec fn resized_of(gray: Seq<u8>, sw: int, sh: int, dw: int, dh: int) -> Seq<u8> {
    Seq::new((dw * dh) as nat, |k: int| gray[sample_index(k / dw, k % dw, sw, sh, dw, dh)])
}

/// The ramp character for a brightness value.
pub open spec fn glyph(lum: u8) -> u8 {
    gradient()[lum * 9 / 255]
}

/// Row `y` of the art drawn from the `dw`-wide brightness grid `grid`: one
/// glyph per pixel, then a newline.
pub open spec fn shade_row(grid: Seq<u8>, dw: int, y: int) -> Seq<u8> {
    Seq::new(dw as nat, |x: int| glyph(grid[y * dw + x])).push(newline())
}

/// The first `h` rows of the art drawn from the `dw`-wide grid `grid`.
pub open spec fn shade_rows(grid: Seq<u8>, dw: int, h: int) -> Seq<u8>
    decreases h,
{
    if h <= 0 {
        Seq::empty()
    } else {
        shade_rows(grid, dw, h - 1) + shade_row(grid, dw, h - 1)
    }
}

/// The ASCII art of an RGB8 image: grayscale, resample to `dw` x `dh`,
/// then one ramp character per pixel and a newline after each row.
pub open spec fn ascii_art(image: Seq<u8>, sw: int, sh: int, dw: int, dh: int) -> Seq<u8> {
    shade_rows(resized_of(grayscale_of(image), sw, sh, dw, dh), dw, dh)
}

/// The sizes for which `image_to_ascii` runs without an arithmetic overflow
/// and without reading past a grayscale buffer of `pixels` values.
pub open spec fn ascii_dims_ok(pixels: int, sw: int, sh: int, dw: int, dh: int) -> bool {
    &&& sw * sh <= u32::MAX
    &&& dw * dh + dh <= u32::MAX
    &&& dh > 0 ==> (dh - 1) * sh <= u32::MAX
    &&& dw > 0 ==> (dw - 1) * sw <= u32::MAX
    &&& dw > 0 && dh > 0 ==> sample_index(dh - 1, dw - 1, sw, sh, dw, dh) < pixels
}

/// Bounds on the intermediate values of nearest-neighbour sampling.
proof fn lemma_sample_bounds(y: int, x: int, sw: int, sh: int, dw: int, dh: int)
    requires
        0 <= y < dh,
        0 <= x < dw,
        0 <= sw,
        0 <= sh,
        sw * sh <= u32::MAX,
        (dh - 1) * sh <= u32::MAX,
        (dw - 1) * sw <= u32::MAX,
    ensures
        0 <= y * sh <= u32::MAX,
        0 <= x * sw <= u32::MAX,
        0 <= y * sh / dh,
        0 <= x * sw / dw,
        0 <= (y * sh / dh) * sw,
        (y * sh / dh) * sw + x * sw / dw <= u32::MAX,
        0 <= sample_index(y, x, sw, sh, dw, dh) <= sample_index(dh - 1, dw - 1, sw, sh, dw, dh),
{
    lemma_mul_nonnegative(y, sh);
    lemma_mul_nonnegative(x, sw);
    lemma_mul_inequality(y, dh - 1, sh);
    lemma_mul_inequality(x, dw - 1, sw);
    lemma_mul_nonnegative(dh - 1, sh);
    lemma_mul_nonnegative(dw - 1, sw);
    let ry = y * sh / dh;
    let cx = x * sw / dw;
    let rmax = (dh - 1) * sh / dh;
    let cmax = (dw - 1) * sw / dw;
    lemma_div_is_ordered(y * sh, (dh - 1) * sh, dh);
    lemma_div_is_ordered(x * sw, (dw - 1) * sw, dw);
    lemma_div_is_ordered(0, y * sh, dh);
    lemma_div_is_ordered(0, x * sw, dw);
    assert(0int / dh == 0);
    assert(0int / dw == 0);
    lemma_mul_nonnegative(ry, sw);
    lemma_mul_inequality(ry, rmax, sw);
    lemma_div_is_ordered_by_denominator(x * sw, 1, dw);
    assert(x * sw / 1 == x * sw);
    if sh == 0 {
        assert(y * sh == 0) by (nonlinear_arith)
            requires
                sh == 0,
        ;
        assert(ry == 0);
        assert(ry * sw == 0) by (nonlinear_arith)
            requires
                ry == 0,
        ;
    } else if sw == 0 {
        assert(x * sw == 0) by (nonlinear_arith)
            requires
                sw == 0,
        ;
        assert(ry * sw == 0) by (nonlinear_arith)
            requires
                sw == 0,
        ;
        assert(cx == 0);
    } else {
        lemma_mul_strict_inequality(y, dh, sh);
        lemma_multiply_divide_lt(y * sh, dh, sh);
        lemma_mul_strict_inequality(x, dw, sw);
        lemma_multiply_divide_lt(x * sw, dw, sw);
        assert(ry <= sh - 1);
        assert(cx <= sw - 1);
        lemma_mul_inequality(ry, sh - 1, sw);
        assert((sh - 1) * sw == sw * sh - sw) by (nonlinear_arith);
    }
}

/// `k == y * dw + x` with `x < dw` splits back into row `y` and column `x`.
proof fn lemma_row_col(k: int, y: int, x: int, dw: int)
    requires
        0 <= x < dw,
        k == y * dw + x,
    ensures
        k / dw == y,
        k % dw == x,
{
    lemma_fundamental_div_mod_converse(k, dw, y, x);
}

/// Converts each complete RGB chunk of `image` to its brightness and
/// appends it to the empty buffer `gray`.
fn fill_grayscale(image: &[u8], gray: &mut Vec<u8>)
    requires
        old(gray)@.len() == 0,
    ensures
        final(gray)@ == grayscale_of(image@),
{
    let chunks: usize = image.len() / 3;
    let mut i: usize = 0;
    while i < chunks
        invariant
            chunks == image@.len() / 3,
            i <= chunks,
            gray@.len() == i,
            forall|j: int| 0 <= j < i ==> gray@[j] == #[trigger] grayscale_of(image@)[j],
        decreases chunks - i,
    {
        assert(3 * i + 2 < image@.len());
        assert(image@.len() == image.len());
        let base: usize = 3 * i;
        let r = image[base];
        let g = image[base + 1];
        let b = image[base + 2];
        let lum = ((r as u32 * 30 + g as u32 * 59 + b as u32 * 11) / 100) as u8;
        gray.push(lum);
        i = i + 1;
    }
    assert(gray@ =~= grayscale_of(image@));
}

/// Nearest-neighbour resampling of `gray` into the empty buffer `resized`.
fn fill_resized(gray: &Vec<u8>, src_w: u32, src_h: u32, dst_w: u32, dst_h: u32, resized: &mut Vec<u8>)
    requires
        old(resized)@.len() == 0,
        ascii_dims_ok(gray@.len() as int, src_w as int, src_h as int, dst_w as int, dst_h as int),
    ensures
        final(resized)@ == resized_of(gray@, src_w as int, src_h as int, dst_w as int, dst_h as int),
{
    let ghost sw = src_w as int;
    let ghost sh = src_h as int;
    let ghost dw = dst_w as int;
    let ghost dh = dst_h as int;
    let mut y: u32 = 0;
    while y < dst_h
        invariant
            y <= dst_h,
            sw == src_w && sh == src_h && dw == dst_w && dh == dst_h,
            ascii_dims_ok(gray@.len() as int, sw, sh, dw, dh),
            resized@.len() == y * dw,
            forall|k: int|
                0 <= k < resized@.len() ==> #[trigger] resized@[k] == gray@[sample_index(
                    k / dw,
                    k % dw,
                    sw,
                    sh,
                    dw,
                    dh,
                )],
        decreases dst_h - y,
    {
        proof {
            lemma_mul_inequality(y as int, dh - 1, sh);
            lemma_mul_nonnegative(y as int, sh);
        }
        let src_y = y * src_h / dst_h;
        let mut x: u32 = 0;
        while x < dst_w
            invariant
                y < dst_h,
                x <= dst_w,
                sw == src_w && sh == src_h && dw == dst_w && dh == dst_h,
                ascii_dims_ok(gray@.len() as int, sw, sh, dw, dh),
                    src_y == y * sh / dh,
                resized@.len() == y * dw + x,
                forall|k: int|
                    0 <= k < resized@.len() ==> #[trigger] resized@[k] == gray@[sample_index(
                        k / dw,
                        k % dw,
                        sw,
                        sh,
                        dw,
                        dh,
                    )],
            decreases dst_w - x,
        {
            proof {
                lemma_sample_bounds(y as int, x as int, sw, sh, dw, dh);
            }
            let src_x = x * src_w / dst_w;
            let i = (src_y * src_w + src_x) as usize;
            let ghost k = resized@.len() as int;
            proof {
                lemma_row_col(k, y as int, x as int, dw);
            }
            resized.push(gray[i]);
            x = x + 1;
        }
        proof {
            assert((y + 1) * dw == y * dw + dw) by (nonlinear_arith);
        }
        y = y + 1;
    }
    assert(dh * dw == dw * dh) by (nonlinear_arith);
    assert(resized@ =~= resized_of(gray@, sw, sh, dw, dh));
}

/// Draws the `dst_w` x `dst_h` brightness grid `resized` into the empty
/// buffer `ascii`, one ramp character per pixel and a newline per row.
fn fill_shaded(resized: &Vec<u8>, dst_w: u32, dst_h: u32, ascii: &mut Vec<u8>)
    requires
        old(ascii)@.len() == 0,
        resized@.len() == dst_w * dst_h,
        dst_w * dst_h + dst_h <= u32::MAX,
    ensures
        final(ascii)@ == shade_rows(resized@, dst_w as int, dst_h as int),
{
    let ramp: [u8; 10] = [64u8, 37u8, 35u8, 42u8, 43u8, 61u8, 45u8, 32u8, 46u8, 32u8];
    assert(ramp@ =~= gradient());
    let ghost dw = dst_w as int;
    let ghost dh = dst_h as int;
    let mut y: u32 = 0;
    while y < dst_h
        invariant
            y <= dst_h,
            dw == dst_w && dh == dst_h,
            ramp@ == gradient(),
            resized@.len() == dw * dh,
            dw * dh + dh <= u32::MAX,
            ascii@ == shade_rows(resized@, dw, y as int),
        decreases dst_h - y,
    {
        let ghost start = ascii@;
        let mut x: u32 = 0;
        while x < dst_w
            invariant
                y < dst_h,
                x <= dst_w,
                dw == dst_w && dh == dst_h,
                ramp@ == gradient(),
                resized@.len() == dw * dh,
                dw * dh + dh <= u32::MAX,
                start == shade_rows(resized@, dw, y as int),
                ascii@ == start + Seq::new(x as nat, |c: int| glyph(resized@[y * dw + c])),
            decreases dst_w - x,
        {
            proof {
                lemma_mul_inequality(y as int, dh - 1, dw);
                lemma_mul_nonnegative(y as int, dw);
                assert((dh - 1) * dw == dw * dh - dw) by (nonlinear_arith);
            }
            let lum = resized[(y * dst_w + x) as usize];
            let idx = lum as usize * 9 / 255;
            ascii.push(ramp[idx]);
            proof {
                assert(Seq::new((x + 1) as nat, |c: int| glyph(resized@[y * dw + c])) =~= Seq::new(
                    x as nat,
                    |c: int| glyph(resized@[y * dw + c]),
                ).push(glyph(resized@[y * dw + x])));
            }
            x = x + 1;
        }
        ascii.push(10u8);
        proof {
            assert(ascii@ =~= shade_rows(resized@, dw, y as int) + shade_row(resized@, dw, y as int));
        }
        y = y + 1;
    }
}

/// Converts a raw RGB8 image of `src_w` x `src_h` pixels into ASCII art of
/// `dst_w` characters per line and `dst_h` lines, each line ended by a
/// newline: the image is turned to grayscale, resampled by nearest
/// neighbour, and each brightness is mapped onto the ramp `@%#*+=- . `.
pub fn image_to_ascii(image_bytes: &[u8], src_w: u32, src_h: u32, dst_w: u32, dst_h: u32) -> (ascii: Vec<u8>)
    requires
        ascii_dims_ok(image_bytes@.len() as int / 3, src_w as int, src_h as int, dst_w as int, dst_h as int),
    ensures
        ascii@ == ascii_art(image_bytes@, src_w as int, src_h as int, dst_w as int, dst_h as int),
{
    let mut gray: Vec<u8> = Vec::with_capacity((src_w * src_h) as usize);
    fill_grayscale(image_bytes, &mut gray);
    proof {
        assert(dst_w * dst_h <= dst_w * dst_h + dst_h);
    }
    let mut resized: Vec<u8> = Vec::with_capacity((dst_w * dst_h) as usize);
    fill_resized(&gray, src_w, src_h, dst_w, dst_h, &mut resized);
    let mut ascii: Vec<u8> = Vec::with_capacity((dst_w * dst_h + dst_h) as usize);
    fill_shaded(&resized, dst_w, dst_h, &mut ascii);
    ascii
}

/// Row `y` of the art starts at offset `y * (dw + 1)`, and the `h` rows
/// together are `h * (dw + 1)` bytes long.
proof fn lemma_shade_rows_index(grid: Seq<u8>, dw: int, h: int, y: int, c: int)
    requires
        0 <= dw,
        0 <= h,
        0 <= y < h,
        0 <= c <= dw,
    ensures
        shade_rows(grid, dw, h).len() == h * (dw + 1),
        shade_rows(grid, dw, h)[y * (dw + 1) + c] == shade_row(grid, dw, y)[c],
    decreases h,
{
    lemma_shade_rows_len(grid, dw, h - 1);
    if y < h - 1 {
        lemma_shade_rows_index(grid, dw, h - 1, y, c);
        assert(y * (dw + 1) + c < (h - 1) * (dw + 1)) by (nonlinear_arith)
            requires
                0 <= y < h - 1,
                0 <= c <= dw,
        ;
    } else {
        assert(y * (dw + 1) + c - (h - 1) * (dw + 1) == c) by (nonlinear_arith)
            requires
                y == h - 1,
        ;
    }
    assert((h - 1) * (dw + 1) + (dw + 1) == h * (dw + 1)) by (nonlinear_arith);
}

/// The first `h` rows of the art are `h * (dw + 1)` bytes long.
proof fn lemma_shade_rows_len(grid: Seq<u8>, dw: int, h: int)
    requires
        0 <= dw,
    ensures
        h >= 0 ==> shade_rows(grid, dw, h).len() == h * (dw + 1),
    decreases h,
{
    if h > 0 {
        lemma_shade_rows_len(grid, dw, h - 1);
        assert((h - 1) * (dw + 1) + (dw + 1) == h * (dw + 1)) by (nonlinear_arith);
    } else if h == 0 {
        assert(0 * (dw + 1) == 0);
    }
}

/// The shape of the art: `dh` lines of `dw` characters and a newline each;
/// the character for output pixel (`y`, `x`) is the ramp character of the
/// brightness of the source pixel that nearest-neighbour sampling picks.
pub proof fn lemma_ascii_art_layout(image: Seq<u8>, sw: int, sh: int, dw: int, dh: int, y: int, x: int)
    requires
        0 <= sw,
        0 <= sh,
        0 <= dw,
        0 <= y < dh,
        0 <= x < dw,
    ensures
        ascii_art(image, sw, sh, dw, dh).len() == dh * (dw + 1),
        ascii_art(image, sw, sh, dw, dh)[y * (dw + 1) + x] == glyph(
            grayscale_of(image)[sample_index(y, x, sw, sh, dw, dh)],
        ),
        ascii_art(image, sw, sh, dw, dh)[y * (dw + 1) + dw] == newline(),
{
    let grid = resized_of(grayscale_of(image), sw, sh, dw, dh);
    lemma_shade_rows_index(grid, dw, dh, y, x);
    lemma_shade_rows_index(grid, dw, dh, y, dw);
    lemma_row_col(y * dw + x, y, x, dw);
    assert(y * dw + x < dw * dh) by (nonlinear_arith)
        requires
            0 <= y < dh,
            0 <= x < dw,
    ;
}

/// Every byte of the art is a newline or a character of the ramp, so the
/// art is plain ASCII text.
pub proof fn lemma_ascii_art_is_ascii(image: Seq<u8>, sw: int, sh: int, dw: int, dh: int, i: int)
    requires
        0 <= i < ascii_art(image, sw, sh, dw, dh).len(),
    ensures
        ascii_art(image, sw, sh, dw, dh)[i] == newline() || gradient().contains(
            ascii_art(image, sw, sh, dw, dh)[i],
        ),
        ascii_art(image, sw, sh, dw, dh)[i] < 128,
{
    lemma_shade_rows_ascii(resized_of(grayscale_of(image), sw, sh, dw, dh), dw, dh, i);
}

/// Every byte of the rows drawn from a grid is a newline or a ramp
/// character.
proof fn lemma_shade_rows_ascii(grid: Seq<u8>, dw: int, h: int, i: int)
    requires
        0 <= i < shade_rows(grid, dw, h).len(),
    ensures
        shade_rows(grid, dw, h)[i] == newline() || gradient().contains(shade_rows(grid, dw, h)[i]),
        shade_rows(grid, dw, h)[i] < 128,
    decreases h,
{
    let prev = shade_rows(grid, dw, h - 1);
    if i < prev.len() {
        lemma_shade_rows_ascii(grid, dw, h - 1, i);
    } else {
        let row = shade_row(grid, dw, h - 1);
        let c = i - prev.len();
        if c < row.len() - 1 {
            let lum = grid[(h - 1) * dw + c];
            assert(lum * 9 / 255 <= 9);
            let j = lum * 9 / 255;
            assert(gradient()[j] == glyph(lum));
            assert(gradient().contains(glyph(lum)));
        }
    }
}

/// Width in pixels of the RGB8 frames the renderer service reads.
pub const FRAME_WIDTH: u32 = 1280;

/// Height in pixels of the RGB8 frames the renderer service reads.
pub const FRAME_HEIGHT: u32 = 720;

/// Characters per line of the rendered art.
pub const ART_WIDTH: u32 = 128;

/// Lines of the rendered art.
pub const ART_HEIGHT: u32 = 72;

/// Size in bytes of the frame buffer the renderer service fills.
pub const FRAME_BYTES: usize = 2764800;

/// Renders a fetched frame of `FRAME_WIDTH` x `FRAME_HEIGHT` RGB8 pixels
/// as `ART_WIDTH` x `ART_HEIGHT` ASCII art; the buffer must hold at least
/// every pixel that the resampling reads.
pub fn render_frame(frame: &[u8]) -> (art: Vec<u8>)
    requires
        ascii_dims_ok(frame@.len() as int / 3, FRAME_WIDTH as int, FRAME_HEIGHT as int, ART_WIDTH as int, ART_HEIGHT as int),
    ensures
        art@ == ascii_art(frame@, FRAME_WIDTH as int, FRAME_HEIGHT as int, ART_WIDTH as int, ART_HEIGHT as int),
        art@.len() == ART_WIDTH * ART_HEIGHT + ART_HEIGHT,
{
    let art = image_to_ascii(frame, FRAME_WIDTH, FRAME_HEIGHT, ART_WIDTH, ART_HEIGHT);
    proof {
        lemma_shade_rows_len(
            resized_of(grayscale_of(frame@), FRAME_WIDTH as int, FRAME_HEIGHT as int, ART_WIDTH as int, ART_HEIGHT as int),
            ART_WIDTH as int,
            ART_HEIGHT as int,
        );
    }
    art
}

/// A full frame buffer of `FRAME_BYTES` bytes is large enough for
/// `render_frame`.
pub proof fn lemma_full_frame_renders(len: int)
    requires
        len >= FRAME_BYTES,
    ensures
        ascii_dims_ok(len / 3, FRAME_WIDTH as int, FRAME_HEIGHT as int, ART_WIDTH as int, ART_HEIGHT as int),
{
    assert(71int * 720 / 72 == 710);
    assert(127int * 1280 / 128 == 1270);
    assert(sample_index(71, 127, 1280, 720, 128, 72) == 910070);
}

/// The character drawn for output pixel (`y`, `x`), in terms of the raw
/// bytes: the source pixel is the one in row `y * sh / dh` and column
/// `x * sw / dw` of the `sw`-wide source (index `row * sw + col`), its
/// brightness is `(30 r + 59 g + 11 b) / 100`, and the character is byte
/// `brightness * 9 / 255` of the ramp `@%#*+=- . `. Each line is `dw`
/// characters and a newline.
pub proof fn lemma_ascii_art_pixel(image: Seq<u8>, sw: int, sh: int, dw: int, dh: int, y: int, x: int)
    requires
        0 <= sw,
        0 <= sh,
        0 <= y < dh,
        0 <= x < dw,
        0 <= (y * sh / dh) * sw + x * sw / dw,
        3 * ((y * sh / dh) * sw + x * sw / dw) + 2 < image.len(),
    ensures
        ({
            let i = (y * sh / dh) * sw + x * sw / dw;
            let lum = (30 * image[3 * i] + 59 * image[3 * i + 1] + 11 * image[3 * i + 2]) / 100;
            &&& ascii_art(image, sw, sh, dw, dh)[y * (dw + 1) + x] == seq![
                64u8,
                37u8,
                35u8,
                42u8,
                43u8,
                61u8,
                45u8,
                32u8,
                46u8,
                32u8,
            ][lum * 9 / 255]
            &&& ascii_art(image, sw, sh, dw, dh)[y * (dw + 1) + dw] == 10u8
            &&& ascii_art(image, sw, sh, dw, dh).len() == dh * (dw + 1)
        }),
{
    lemma_ascii_art_layout(image, sw, sh, dw, dh, y, x);
    let i = (y * sh / dh) * sw + x * sw / dw;
    assert(i == sample_index(y, x, sw, sh, dw, dh));
    assert(i < image.len() / 3);
    let gray = grayscale_of(image);
    let raw = (30 * image[3 * i] + 59 * image[3 * i + 1] + 11 * image[3 * i + 2]) / 100;
    assert(0 <= raw <= 255);
    assert(gray[i] == luminance(image[3 * i], image[3 * i + 1], image[3 * i + 2]));
    assert(gray[i] == raw);
    assert(0 <= raw * 9 / 255 <= 9);
}

/// For the renderer's frame, art line `y` shows source row `10 * y` and
/// art column `x` shows source column `10 * x`: the character at
/// (`y`, `x`) is the ramp character of the brightness of source pixel
/// `(10 y) * 1280 + 10 x`, and every line ends after 128 characters.
pub proof fn lemma_frame_art_pixel(frame: Seq<u8>, y: int, x: int)
    requires
        frame.len() >= FRAME_BYTES,
        0 <= y < ART_HEIGHT,
        0 <= x < ART_WIDTH,
    ensures
        ({
            let i = (10 * y) * 1280 + 10 * x;
            let lum = (30 * frame[3 * i] + 59 * frame[3 * i + 1] + 11 * frame[3 * i + 2]) / 100;
            &&& ascii_art(frame, 1280, 720, 128, 72)[y * 129 + x] == seq![
                64u8,
                37u8,
                35u8,
                42u8,
                43u8,
                61u8,
                45u8,
                32u8,
                46u8,
                32u8,
            ][lum * 9 / 255]
            &&& ascii_art(frame, 1280, 720, 128, 72)[y * 129 + 128] == 10u8
            &&& ascii_art(frame, 1280, 720, 128, 72).len() == 72 * 129
        }),
{
    lemma_fundamental_div_mod_converse(y * 720, 72, 10 * y, 0);
    lemma_fundamental_div_mod_converse(x * 1280, 128, 10 * x, 0);
    assert(y * 720 / 72 == 10 * y);
    assert(x * 1280 / 128 == 10 * x);
    assert(3 * ((10 * y) * 1280 + 10 * x) + 2 < FRAME_BYTES);
    lemma_ascii_art_pixel(frame, 1280, 720, 128, 72, y, x);
}

} // verus!
