use vstd::prelude::*;
use crate::buffers::GraphicsBuffer;
use crate::byte_order::{is_machine_bytes, le_bytes, be_bytes};
use crate::platform::{POOL_STRIDE_BYTES, POOL_STRIDE_PIXELS, LATENCY_TARGET_FRAMES, AUDIO_WINDOW, lemma_pool_dims};

verus! {

/// The opaque colour with the given red, green and blue bytes, packed as
/// `0xAARRGGBB`.
pub fn color_from_rgb(red: u8, green: u8, blue: u8) -> (color: u32)
    ensures
        color == 0xFF00_0000 + red * 0x1_0000 + green * 0x100 + blue,
{
    0xFF00_0000u32 + (red as u32) * 0x1_0000 + (green as u32) * 0x100 + (blue as u32)
}

/// `v` clamped to `0..=hi`.
pub open spec fn clamp_to(v: int, hi: int) -> int {
    if v < 0 {
        0
    } else if v > hi {
        hi
    } else {
        v
    }
}

/// Clamps a pixel coordinate into `0..=hi`.
fn clamp_coord(v: i64, hi: usize) -> (r: usize)
    ensures
        r == clamp_to(v as int, hi as int),
{
    if v < 0 {
        0
    } else if (v as u64) > (hi as u64) {
        hi
    } else {
        v as usize
    }
}

/// Row of the pixel holding byte `i`, in a frame of `pitch` pixels a row.
pub open spec fn pixel_row(i: int, pitch: int) -> int {
    (i / 4) / pitch
}

/// Column of the pixel holding byte `i`, in a frame of `pitch` pixels a row.
pub open spec fn pixel_col(i: int, pitch: int) -> int {
    (i / 4) % pitch
}

/// Byte `i` belongs to a pixel in columns `x0..x1` of rows `y0..y1`.
pub open spec fn in_rect(i: int, pitch: int, x0: int, x1: int, y0: int, y1: int) -> bool {
    &&& y0 <= pixel_row(i, pitch) < y1
    &&& x0 <= pixel_col(i, pitch) < x1
}

/// `bytes` with every pixel of the rectangle set to the pixel bytes `cb`.
pub open spec fn filled_rect(
    bytes: Seq<u8>,
    pitch: int,
    x0: int,
    x1: int,
    y0: int,
    y1: int,
    cb: Seq<u8>,
) -> Seq<u8> {
    Seq::new(
        bytes.len(),
        |i: int|
            if in_rect(i, pitch, x0, x1, y0, y1) {
                cb[i % 4]
            } else {
                bytes[i]
            },
    )
}

/// The rectangle with clamped corners (`x0`, `y0`), (`x1`, `y1`) can be
/// filled in `buffer`: its rows are well ordered and inside the frame,
/// whose bytes are whole pixels, and, when it has a row, its columns are
/// well ordered and inside a row.
pub open spec fn rect_fits(buffer: GraphicsBuffer, x0: int, x1: int, y0: int, y1: int) -> bool {
    &&& buffer.pitch_pixels > 0
    &&& y0 < y1 ==> x0 <= x1 <= buffer.pitch_pixels
    &&& y0 <= y1
    &&& y1 * buffer.pitch_pixels * 4 <= buffer.pixels@.len()
    &&& buffer.pixels@.len() % 4 == 0
}

/// Calls `bytemuck::bytes_of` on a colour: its four bytes as the machine
/// stores them. Claimed: those are the colour's bytes in one of the two
/// byte orders; which one is left open.
#[verifier::external_body]
fn color_bytes(color: &u32) -> (b: [u8; 4])
    ensures
        is_machine_bytes(*color, b@),
{
    let bytes: &[u8] = bytemuck::bytes_of(color);
    [bytes[0], bytes[1], bytes[2], bytes[3]]
}

/// Writes the bytes `cb` into pixel `p` of `pixels`.
fn set_pixel(pixels: &mut Vec<u8>, p: usize, cb: &[u8; 4])
    requires
        4 * p + 4 <= old(pixels)@.len(),
    ensures
        final(pixels)@.len() == old(pixels)@.len(),
        forall|i: int|
            0 <= i < old(pixels)@.len() ==> #[trigger] final(pixels)@[i] == if i / 4 == p {
                cb@[i % 4]
            } else {
                old(pixels)@[i]
            },
{
    let len: usize = pixels.len();
    assert(4 * p + 4 <= len);
    pixels[4 * p] = cb[0];
    pixels[4 * p + 1] = cb[1];
    pixels[4 * p + 2] = cb[2];
    pixels[4 * p + 3] = cb[3];
}

/// Byte `i` lies in pixel (`row`, `col`) exactly when its pixel index is
/// `row * pitch + col`.
proof fn lemma_pixel_at(i: int, pitch: int, row: int, col: int)
    requires
        0 <= i,
        pitch > 0,
        0 <= col < pitch,
    ensures
        (i / 4 == row * pitch + col) == (pixel_row(i, pitch) == row && pixel_col(i, pitch) == col),
{
    let p = i / 4;
    vstd::arithmetic::div_mod::lemma_fundamental_div_mod(p, pitch);
    if p / pitch == row && p % pitch == col {
        assert(pitch * row == row * pitch) by (nonlinear_arith);
    }
    if p == row * pitch + col {
        vstd::arithmetic::div_mod::lemma_fundamental_div_mod_converse(p, pitch, row, col);
    }
}

/// Sets every pixel in columns `x0..x1` of rows `y0..y1` to the bytes
/// `pixel`.
pub fn fill_rect(graphics_buffer: &mut GraphicsBuffer, x0: usize, x1: usize, y0: usize, y1: usize, pixel: [u8; 4])
    requires
        rect_fits(*old(graphics_buffer), x0 as int, x1 as int, y0 as int, y1 as int),
    ensures
        final(graphics_buffer).width_pixels == old(graphics_buffer).width_pixels,
        final(graphics_buffer).height_pixels == old(graphics_buffer).height_pixels,
        final(graphics_buffer).pitch_bytes == old(graphics_buffer).pitch_bytes,
        final(graphics_buffer).pitch_pixels == old(graphics_buffer).pitch_pixels,
        final(graphics_buffer).bytes_per_pixel == old(graphics_buffer).bytes_per_pixel,
        final(graphics_buffer).pixels@ == filled_rect(
            old(graphics_buffer).pixels@,
            old(graphics_buffer).pitch_pixels as int,
            x0 as int,
            x1 as int,
            y0 as int,
            y1 as int,
            pixel@,
        ),
{
    if y0 == y1 {
        assert(graphics_buffer.pixels@ =~= filled_rect(
            graphics_buffer.pixels@,
            graphics_buffer.pitch_pixels as int,
            x0 as int,
            x1 as int,
            y0 as int,
            y1 as int,
            pixel@,
        ));
        return;
    }
    let cb: [u8; 4] = pixel;
    let pitch: usize = graphics_buffer.pitch_pixels;
    let ghost old_pixels = graphics_buffer.pixels@;
    let total: usize = graphics_buffer.pixels.len();
    let ghost len = total as int;
    let mut row: usize = y0;
    while row < y1
        invariant
            pitch > 0,
            x0 <= x1 <= pitch,
            y0 <= row <= y1,
            y1 * pitch * 4 <= len,
            len == old_pixels.len(),
            len <= usize::MAX,
            graphics_buffer.pitch_pixels == pitch,
            graphics_buffer.width_pixels == old(graphics_buffer).width_pixels,
            graphics_buffer.height_pixels == old(graphics_buffer).height_pixels,
            graphics_buffer.pitch_bytes == old(graphics_buffer).pitch_bytes,
            graphics_buffer.bytes_per_pixel == old(graphics_buffer).bytes_per_pixel,
            graphics_buffer.pixels@.len() == len,
            forall|i: int|
                0 <= i < len ==> #[trigger] graphics_buffer.pixels@[i] == if in_rect(
                    i,
                    pitch as int,
                    x0 as int,
                    x1 as int,
                    y0 as int,
                    row as int,
                ) {
                    cb@[i % 4]
                } else {
                    old_pixels[i]
                },
        decreases y1 - row,
    {
        let mut col: usize = x0;
        while col < x1
            invariant
                pitch > 0,
                x0 <= col <= x1 <= pitch,
                y0 <= row < y1,
                y1 * pitch * 4 <= len,
                len == old_pixels.len(),
                len <= usize::MAX,
                graphics_buffer.pitch_pixels == pitch,
                graphics_buffer.width_pixels == old(graphics_buffer).width_pixels,
                graphics_buffer.height_pixels == old(graphics_buffer).height_pixels,
                graphics_buffer.pitch_bytes == old(graphics_buffer).pitch_bytes,
                graphics_buffer.bytes_per_pixel == old(graphics_buffer).bytes_per_pixel,
                graphics_buffer.pixels@.len() == len,
                forall|i: int|
                    0 <= i < len ==> #[trigger] graphics_buffer.pixels@[i] == if in_rect(
                        i,
                        pitch as int,
                        x0 as int,
                        x1 as int,
                        y0 as int,
                        row as int,
                    ) || (pixel_row(i, pitch as int) == row && x0 <= pixel_col(i, pitch as int)
                        < col) {
                        cb@[i % 4]
                    } else {
                        old_pixels[i]
                    },
            decreases x1 - col,
        {
            assert(row * pitch + col < y1 * pitch && 4 * (row * pitch + col) + 4 <= len)
                by (nonlinear_arith)
                requires
                    row < y1,
                    col < pitch,
                    y1 * pitch * 4 <= len,
            ;
            let p: usize = row * pitch + col;
            set_pixel(&mut graphics_buffer.pixels, p, &cb);
            proof {
                assert forall|i: int| 0 <= i < len implies #[trigger] graphics_buffer.pixels@[i]
                    == if in_rect(i, pitch as int, x0 as int, x1 as int, y0 as int, row as int)
                    || (pixel_row(i, pitch as int) == row && x0 <= pixel_col(i, pitch as int) < col
                    + 1) {
                    cb@[i % 4]
                } else {
                    old_pixels[i]
                } by {
                    lemma_pixel_at(i, pitch as int, row as int, col as int);
                }
            }
            col = col + 1;
        }
        row = row + 1;
    }
    proof {
        let fr = filled_rect(old_pixels, pitch as int, x0 as int, x1 as int, y0 as int, y1 as int, cb@);
        assert(graphics_buffer.pixels@ =~= fr);
    }
}

/// A second fill of the same rectangle overwrites the first: with the
/// same pixel bytes, filling twice is filling once.
pub proof fn lemma_fill_twice(
    bytes: Seq<u8>,
    pitch: int,
    x0: int,
    x1: int,
    y0: int,
    y1: int,
    first: Seq<u8>,
    second: Seq<u8>,
)
    ensures
        filled_rect(filled_rect(bytes, pitch, x0, x1, y0, y1, first), pitch, x0, x1, y0, y1, second)
            == filled_rect(bytes, pitch, x0, x1, y0, y1, second),
{
    assert(filled_rect(filled_rect(bytes, pitch, x0, x1, y0, y1, first), pitch, x0, x1, y0, y1, second)
        =~= filled_rect(bytes, pitch, x0, x1, y0, y1, second));
}

/// `after` is `before` with the rectangle from (`min_x`, `min_y`) to
/// (`max_x`, `max_y`), clamped into the frame, filled with `color` in one
/// of the two byte orders.
pub open spec fn rect_drawn(
    before: GraphicsBuffer,
    after: GraphicsBuffer,
    min_x: i64,
    min_y: i64,
    max_x: i64,
    max_y: i64,
    color: u32,
) -> bool {
    &&& after.width_pixels == before.width_pixels
    &&& after.height_pixels == before.height_pixels
    &&& after.pitch_bytes == before.pitch_bytes
    &&& after.pitch_pixels == before.pitch_pixels
    &&& after.bytes_per_pixel == before.bytes_per_pixel
    &&& exists|cb: Seq<u8>|
        #![trigger is_machine_bytes(color, cb)]
        is_machine_bytes(color, cb) && after.pixels@ == filled_rect(
            before.pixels@,
            before.pitch_pixels as int,
            clamp_to(min_x as int, before.width_pixels as int),
            clamp_to(max_x as int, before.width_pixels as int),
            clamp_to(min_y as int, before.height_pixels as int),
            clamp_to(max_y as int, before.height_pixels as int),
            cb,
        )
}

/// Drawing the same rectangle twice leaves what drawing it once may
/// leave, and the second draw changes nothing when the colour reads the
/// same in both byte orders. (When both draws write the same bytes, as on
/// any one machine, `lemma_fill_twice` gives that the second changes
/// nothing.)
pub proof fn lemma_draw_twice(
    a: GraphicsBuffer,
    b: GraphicsBuffer,
    c: GraphicsBuffer,
    min_x: i64,
    min_y: i64,
    max_x: i64,
    max_y: i64,
    color: u32,
)
    requires
        rect_drawn(a, b, min_x, min_y, max_x, max_y, color),
        rect_drawn(b, c, min_x, min_y, max_x, max_y, color),
    ensures
        rect_drawn(a, c, min_x, min_y, max_x, max_y, color),
        le_bytes(color) == be_bytes(color) ==> c.pixels@ == b.pixels@,
{
    let cb1 = choose|cb: Seq<u8>|
        #![trigger is_machine_bytes(color, cb)]
        is_machine_bytes(color, cb) && b.pixels@ == filled_rect(
            a.pixels@,
            a.pitch_pixels as int,
            clamp_to(min_x as int, a.width_pixels as int),
            clamp_to(max_x as int, a.width_pixels as int),
            clamp_to(min_y as int, a.height_pixels as int),
            clamp_to(max_y as int, a.height_pixels as int),
            cb,
        );
    let cb2 = choose|cb: Seq<u8>|
        #![trigger is_machine_bytes(color, cb)]
        is_machine_bytes(color, cb) && c.pixels@ == filled_rect(
            b.pixels@,
            b.pitch_pixels as int,
            clamp_to(min_x as int, b.width_pixels as int),
            clamp_to(max_x as int, b.width_pixels as int),
            clamp_to(min_y as int, b.height_pixels as int),
            clamp_to(max_y as int, b.height_pixels as int),
            cb,
        );
    let (pitch, x0, x1, y0, y1) = (
        a.pitch_pixels as int,
        clamp_to(min_x as int, a.width_pixels as int),
        clamp_to(max_x as int, a.width_pixels as int),
        clamp_to(min_y as int, a.height_pixels as int),
        clamp_to(max_y as int, a.height_pixels as int),
    );
    lemma_fill_twice(a.pixels@, pitch, x0, x1, y0, y1, cb1, cb2);
    if le_bytes(color) == be_bytes(color) {
        assert(cb1 == cb2);
        lemma_fill_twice(a.pixels@, pitch, x0, x1, y0, y1, cb1, cb1);
    }
}

/// Fills the rectangle from (`min_x`, `min_y`) up to, not including,
/// (`max_x`, `max_y`), each corner first clamped into the frame's width
/// and height, with `color` in the machine's byte order.
pub fn draw_rectangle_pixels(
    graphics_buffer: &mut GraphicsBuffer,
    min_x: i64,
    min_y: i64,
    max_x: i64,
    max_y: i64,
    color: u32,
)
    requires
        rect_fits(
            *old(graphics_buffer),
            clamp_to(min_x as int, old(graphics_buffer).width_pixels as int),
            clamp_to(max_x as int, old(graphics_buffer).width_pixels as int),
            clamp_to(min_y as int, old(graphics_buffer).height_pixels as int),
            clamp_to(max_y as int, old(graphics_buffer).height_pixels as int),
        ),
    ensures
        rect_drawn(*old(graphics_buffer), *final(graphics_buffer), min_x, min_y, max_x, max_y, color),
{
    let x0: usize = clamp_coord(min_x, graphics_buffer.width_pixels);
    let x1: usize = clamp_coord(max_x, graphics_buffer.width_pixels);
    let y0: usize = clamp_coord(min_y, graphics_buffer.height_pixels);
    let y1: usize = clamp_coord(max_y, graphics_buffer.height_pixels);
    let cb: [u8; 4] = color_bytes(&color);
    fill_rect(graphics_buffer, x0, x1, y0, y1, cb);
}

/// Column of the frame, `width` pixels wide, that the debug view draws
/// audio position `x` at.
pub open spec fn debug_column(x: int, width: int) -> int {
    x * width / 5760
}

/// Byte `i` lies on the vertical line drawn over rows `top..top + height`
/// of the pool at pixel `column` past the first row's start: the line takes
/// every `POOL_STRIDE_PIXELS`-th pixel from there, to the end of those rows.
pub open spec fn in_vline(i: int, top: int, height: int, column: int) -> bool {
    let q = i / 4;
    let first = POOL_STRIDE_PIXELS * top;
    &&& 0 <= i
    &&& first <= q < POOL_STRIDE_PIXELS * (top + height)
    &&& q - first >= column
    &&& (q - first - column) % (POOL_STRIDE_PIXELS as int) == 0
}

/// `bytes` with the vertical line drawn in the pixel bytes `color`.
pub open spec fn vertical_line(bytes: Seq<u8>, top: int, height: int, column: int, color: Seq<u8>) -> Seq<u8> {
    Seq::new(
        bytes.len(),
        |i: int|
            if in_vline(i, top, height, column) {
                color[i % 4]
            } else {
                bytes[i]
            },
    )
}

/// Between two multiples of `n` there are none.
proof fn lemma_mod_gap(a: int, d: int, n: int)
    requires
        n > 0,
        a % n == 0,
        a < d < a + n,
    ensures
        d % n != 0,
{
    vstd::arithmetic::div_mod::lemma_fundamental_div_mod(a, n);
    vstd::arithmetic::div_mod::lemma_fundamental_div_mod(d, n);
    if d % n == 0 {
        assert(n * (d / n) > n * (a / n));
        assert(n * (d / n) < n * (a / n) + n);
        assert(false) by (nonlinear_arith)
            requires
                n > 0,
                n * (d / n) > n * (a / n),
                n * (d / n) < n * (a / n) + n,
        ;
    }
}

/// Draws a vertical debug line in `color` for audio position `x`, over
/// rows `top..top + height` of the pool.
pub fn draw_vertical(graphics_buffer: &mut GraphicsBuffer, x: usize, top: usize, height: usize, color: [u8; 4])
    requires
        x * old(graphics_buffer).width_pixels <= usize::MAX,
        (top + height) * POOL_STRIDE_BYTES <= old(graphics_buffer).pixels@.len(),
    ensures
        final(graphics_buffer).width_pixels == old(graphics_buffer).width_pixels,
        final(graphics_buffer).height_pixels == old(graphics_buffer).height_pixels,
        final(graphics_buffer).pitch_bytes == old(graphics_buffer).pitch_bytes,
        final(graphics_buffer).pitch_pixels == old(graphics_buffer).pitch_pixels,
        final(graphics_buffer).bytes_per_pixel == old(graphics_buffer).bytes_per_pixel,
        final(graphics_buffer).pixels@ == vertical_line(
            old(graphics_buffer).pixels@,
            top as int,
            height as int,
            debug_column(x as int, old(graphics_buffer).width_pixels as int),
            color@,
        ),
{
    proof {
        lemma_pool_dims();
    }
    let total: usize = graphics_buffer.pixels.len();
    let column: usize = x * graphics_buffer.width_pixels / 5760;
    let first: usize = POOL_STRIDE_PIXELS * top;
    let count: usize = height * POOL_STRIDE_PIXELS;
    let ghost old_pixels = graphics_buffer.pixels@;
    let ghost t = top as int;
    let ghost h = height as int;
    let ghost c = column as int;
    let mut j: usize = column;
    while j < count
        invariant
            POOL_STRIDE_PIXELS == 3840,
            POOL_STRIDE_BYTES == 15360,
            total == old_pixels.len(),
            (top + height) * POOL_STRIDE_BYTES <= total,
            first == POOL_STRIDE_PIXELS * top,
            count == height * POOL_STRIDE_PIXELS,
            c == column,
            t == top,
            h == height,
            column <= j,
            (j - column) % (POOL_STRIDE_PIXELS as int) == 0,
            graphics_buffer.width_pixels == old(graphics_buffer).width_pixels,
            graphics_buffer.height_pixels == old(graphics_buffer).height_pixels,
            graphics_buffer.pitch_bytes == old(graphics_buffer).pitch_bytes,
            graphics_buffer.pitch_pixels == old(graphics_buffer).pitch_pixels,
            graphics_buffer.bytes_per_pixel == old(graphics_buffer).bytes_per_pixel,
            graphics_buffer.pixels@.len() == total,
            forall|i: int|
                0 <= i < total ==> #[trigger] graphics_buffer.pixels@[i] == if in_vline(i, t, h, c)
                    && i / 4 - first < j {
                    color@[i % 4]
                } else {
                    old_pixels[i]
                },
        decreases (if j < count {
            count - j
        } else {
            0
        }),
    {
        let p: usize = first + j;
        let ghost before = graphics_buffer.pixels@;
        set_pixel(&mut graphics_buffer.pixels, p, &color);
        proof {
            assert forall|i: int| 0 <= i < total implies #[trigger] graphics_buffer.pixels@[i]
                == if in_vline(i, t, h, c) && i / 4 - first < j + POOL_STRIDE_PIXELS {
                color@[i % 4]
            } else {
                old_pixels[i]
            } by {
                let q = i / 4;
                if q == p {
                    assert(graphics_buffer.pixels@[i] == color@[i % 4]);
                    assert(q - first == j);
                    assert(first + count == POOL_STRIDE_PIXELS * (t + h)) by (nonlinear_arith)
                        requires
                            first == POOL_STRIDE_PIXELS * t,
                            count == h * POOL_STRIDE_PIXELS,
                    ;
                    assert(in_vline(i, t, h, c));
                } else {
                    assert(graphics_buffer.pixels@[i] == before[i]);
                    if first + j < q < first + j + POOL_STRIDE_PIXELS && q - first >= c {
                        lemma_mod_gap(j - c, q - first - c, POOL_STRIDE_PIXELS as int);
                        assert(!in_vline(i, t, h, c));
                    }
                }
            }
        }
        j = j + POOL_STRIDE_PIXELS;
    }
    proof {
        assert(graphics_buffer.pixels@ =~= vertical_line(old_pixels, t, h, c, color@));
    }
}

/// The audio debug view after `n` history entries: the latency target
/// line in white over the whole frame, then for each entry, in its band of
/// rows, the queued position in green and the queued plus written position
/// in blue.
pub open spec fn audio_debug_image(
    bytes: Seq<u8>,
    width: int,
    height: int,
    written: Seq<usize>,
    queued: Seq<usize>,
    n: nat,
) -> Seq<u8>
    decreases n,
{
    if n == 0 {
        vertical_line(
            bytes,
            0,
            height,
            debug_column(LATENCY_TARGET_FRAMES as int, width),
            seq![255u8, 255u8, 255u8, 255u8],
        )
    } else {
        let prev = audio_debug_image(bytes, width, height, written, queued, (n - 1) as nat);
        let i = n - 1;
        let band = height / (AUDIO_WINDOW as int);
        let with_queued = vertical_line(
            prev,
            band * i,
            band,
            debug_column(queued[i] as int, width),
            seq![0u8, 255u8, 0u8, 0u8],
        );
        vertical_line(
            with_queued,
            band * i,
            band,
            debug_column(queued[i] + written[i], width),
            seq![0u8, 0u8, 255u8, 0u8],
        )
    }
}

/// The history can be drawn into a frame `width` pixels wide: every
/// position, and its product with the width, fits in `usize`.
pub open spec fn audio_debug_fits(width: int, written: Seq<usize>, queued: Seq<usize>) -> bool {
    &&& LATENCY_TARGET_FRAMES * width <= usize::MAX
    &&& forall|i: int|
        0 <= i < AUDIO_WINDOW ==> #[trigger] queued[i] * width <= usize::MAX && queued[i]
            + written[i] <= usize::MAX && (queued[i] + written[i]) * width <= usize::MAX
}

/// Draws the audio debug view: the latency target, then, band by band,
/// where each history entry's queue stood and how far its write reached.
/// The target line is always drawn at `LATENCY_TARGET_FRAMES`; the last
/// argument is not read, and the result does not depend on it.
pub fn draw_audio_debug(
    graphics_buffer: &mut GraphicsBuffer,
    written_window: [usize; AUDIO_WINDOW],
    queued_window: [usize; AUDIO_WINDOW],
    _latency_target_frames: u32,
)
    requires
        old(graphics_buffer).height_pixels * POOL_STRIDE_BYTES <= old(graphics_buffer).pixels@.len(),
        audio_debug_fits(
            old(graphics_buffer).width_pixels as int,
            written_window@,
            queued_window@,
        ),
    ensures
        final(graphics_buffer).width_pixels == old(graphics_buffer).width_pixels,
        final(graphics_buffer).height_pixels == old(graphics_buffer).height_pixels,
        final(graphics_buffer).pitch_bytes == old(graphics_buffer).pitch_bytes,
        final(graphics_buffer).pitch_pixels == old(graphics_buffer).pitch_pixels,
        final(graphics_buffer).bytes_per_pixel == old(graphics_buffer).bytes_per_pixel,
        final(graphics_buffer).pixels@ == audio_debug_image(
            old(graphics_buffer).pixels@,
            old(graphics_buffer).width_pixels as int,
            old(graphics_buffer).height_pixels as int,
            written_window@,
            queued_window@,
            AUDIO_WINDOW as nat,
        ),
{
    proof {
        lemma_pool_dims();
    }
    let ghost old_pixels = graphics_buffer.pixels@;
    let ghost width = graphics_buffer.width_pixels as int;
    let ghost height = graphics_buffer.height_pixels as int;
    let height_pixels: usize = graphics_buffer.height_pixels;
    draw_vertical(
        graphics_buffer,
        LATENCY_TARGET_FRAMES as usize,
        0,
        height_pixels,
        [255, 255, 255, 255],
    );
    assert(graphics_buffer.pixels@ =~= audio_debug_image(
        old_pixels,
        width,
        height,
        written_window@,
        queued_window@,
        0,
    ));
    let line_height_px: usize = height_pixels / AUDIO_WINDOW;
    let mut i: usize = 0;
    while i < AUDIO_WINDOW
        invariant
            i <= AUDIO_WINDOW,
            POOL_STRIDE_BYTES == 15360,
            height == height_pixels,
            line_height_px == height_pixels / AUDIO_WINDOW,
            height_pixels * POOL_STRIDE_BYTES <= old_pixels.len(),
            audio_debug_fits(width, written_window@, queued_window@),
            graphics_buffer.width_pixels == width,
            graphics_buffer.height_pixels == height,
            graphics_buffer.pitch_bytes == old(graphics_buffer).pitch_bytes,
            graphics_buffer.pitch_pixels == old(graphics_buffer).pitch_pixels,
            graphics_buffer.bytes_per_pixel == old(graphics_buffer).bytes_per_pixel,
            graphics_buffer.pixels@.len() == old_pixels.len(),
            graphics_buffer.pixels@ == audio_debug_image(
                old_pixels,
                width,
                height,
                written_window@,
                queued_window@,
                i as nat,
            ),
        decreases AUDIO_WINDOW - i,
    {
        let written: usize = written_window[i];
        let queued: usize = queued_window[i];
        assert(queued_window@[i as int] * width <= usize::MAX);
        assert(line_height_px * i + line_height_px <= height_pixels && (line_height_px * i
            + line_height_px) * POOL_STRIDE_BYTES <= old_pixels.len()) by (nonlinear_arith)
            requires
                i < 32,
                line_height_px == height_pixels / 32,
                height_pixels * 15360 <= old_pixels.len(),
                POOL_STRIDE_BYTES == 15360,
        ;
        let top: usize = line_height_px * i;
        draw_vertical(graphics_buffer, queued, top, line_height_px, [0, 255, 0, 0]);
        draw_vertical(graphics_buffer, queued + written, top, line_height_px, [0, 0, 255, 0]);
        proof {
            let next = audio_debug_image(
                old_pixels,
                width,
                height,
                written_window@,
                queued_window@,
                (i + 1) as nat,
            );
            assert(graphics_buffer.pixels@ =~= next);
        }
        i = i + 1;
    }
}

/// Does nothing to the frame.
pub fn debug_sync_display(buffer: &mut [u8])
    ensures
        final(buffer)@ == old(buffer)@,
{
}

} // verus!
