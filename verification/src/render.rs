//! Drawing a board into a raster of pixels, three bytes for each cell.

use vstd::prelude::*;
use crate::CellularAutomata;

verus! {

/// Where the pixel of column `x` of row `y` begins, in a buffer whose rows lie
/// `pitch` bytes apart.
pub open spec fn pixel_offset(x: int, y: int, pitch: int) -> int {
    y * pitch + 3 * x
}

/// The red, green and blue bytes of the pixel of `(x, y)`.
pub open spec fn pixel(buffer: Seq<u8>, x: int, y: int, pitch: int) -> (u8, u8, u8) {
    let at = pixel_offset(x, y, pitch);
    (buffer[at], buffer[at + 1], buffer[at + 2])
}

/// Whether the byte at `at` is one of the three of the pixel of `(x, y)`.
pub open spec fn in_pixel(at: int, x: int, y: int, pitch: int) -> bool {
    pixel_offset(x, y, pitch) <= at < pixel_offset(x, y, pitch) + 3
}

/// Whether the byte at `at` belongs to a pixel of a board of the given shape.
pub open spec fn is_painted(at: int, width: int, height: int, pitch: int) -> bool {
    exists|x: int, y: int| 0 <= x < width && 0 <= y < height && #[trigger] in_pixel(at, x, y, pitch)
}

/// Pixels lie in the buffer in the order of their cells, row by row, and do
/// not overlap.
pub proof fn lemma_pixels_in_order(x1: int, y1: int, x2: int, y2: int, width: int, pitch: int)
    requires
        0 <= x1 < width,
        0 <= x2 < width,
        0 <= y1,
        0 <= y2,
        3 * width <= pitch,
        y1 < y2 || (y1 == y2 && x1 < x2),
    ensures
        0 <= pixel_offset(x1, y1, pitch),
        pixel_offset(x1, y1, pitch) + 3 <= pixel_offset(x2, y2, pitch),
{
    assert(0 <= y1 * pitch) by (nonlinear_arith)
        requires
            0 <= y1,
            0 <= pitch,
    ;
    if y1 < y2 {
        assert(y1 * pitch + pitch <= y2 * pitch) by (nonlinear_arith)
            requires
                y1 + 1 <= y2,
                0 <= pitch,
        ;
    }
}

/// The last pixel of a board ends within a buffer that holds all rows but
/// the last in full and the last up to its last pixel.
pub proof fn lemma_pixel_in_buffer(x: int, y: int, width: int, height: int, pitch: int, len: int)
    requires
        0 <= x < width,
        0 <= y < height,
        3 * width <= pitch,
        (height - 1) * pitch + 3 * width <= len,
    ensures
        0 <= y * pitch,
        0 <= pixel_offset(x, y, pitch),
        pixel_offset(x, y, pitch) + 3 <= len,
{
    assert(0 <= y * pitch <= (height - 1) * pitch) by (nonlinear_arith)
        requires
            0 <= y <= height - 1,
            0 <= pitch,
    ;
}

/// Whether a board of the given shape can be painted into a buffer of `len`
/// bytes whose rows lie `pitch` bytes apart: a row of pixels fits between the
/// starts of two rows, the buffer reaches to the end of the last pixel, and
/// the board is no wider and no higher than coordinates can say.
pub open spec fn paintable(width: nat, height: nat, pitch: nat, len: nat) -> bool {
    &&& width <= i32::MAX
    &&& height <= i32::MAX
    &&& 3 * width <= pitch
    &&& width > 0 && height > 0 ==> (height - 1) * pitch + 3 * width <= len
}

/// Paints every cell of the board into `buffer`: the pixel of column `x` of
/// row `y` takes the three bytes from `y * pitch + 3 * x` on, and holds the
/// colour that `cell_to_rgb` gives the cell's state. Bytes between the rows
/// and behind the last pixel are left as they were.
///
/// The board must be paintable into the buffer; `try_paint` asks first.
pub fn paint<T, U, F>(board: &U, buffer: &mut [u8], pitch: usize, cell_to_rgb: F) where
    U: CellularAutomata<T>,
    F: Fn(T) -> (u8, u8, u8),

    requires
        paintable(board.width(), board.height(), pitch as nat, old(buffer)@.len()),
        forall|state: T| cell_to_rgb.requires((state,)),
    ensures
        final(buffer)@.len() == old(buffer)@.len(),
        forall|x: int, y: int|
            0 <= x < board.width() && 0 <= y < board.height() ==> cell_to_rgb.ensures(
                (board.cell(x, y),),
                #[trigger] pixel(final(buffer)@, x, y, pitch as int),
            ),
        forall|at: int|
            0 <= at < old(buffer)@.len() && !is_painted(
                at,
                board.width() as int,
                board.height() as int,
                pitch as int,
            ) ==> #[trigger] final(buffer)@[at] == old(buffer)@[at],
{
    let width = board.get_width();
    let height = board.get_height();
    let ghost before = buffer@;
    let ghost p = pitch as int;
    assert(before.len() <= usize::MAX) by {
        assert(buffer.len() == before.len());
    }
    let mut y: usize = 0;
    while y < height
        invariant
            width == board.width(),
            height == board.height(),
            width <= i32::MAX,
            height <= i32::MAX,
            p == pitch,
            3 * width <= p,
            width > 0 && height > 0 ==> (height - 1) * p + 3 * width <= before.len(),
            forall|state: T| cell_to_rgb.requires((state,)),
            y <= height,
            buffer@.len() == before.len(),
            before.len() <= usize::MAX,
            forall|x1: int, y1: int|
                0 <= x1 < width && 0 <= y1 < y ==> cell_to_rgb.ensures(
                    (board.cell(x1, y1),),
                    #[trigger] pixel(buffer@, x1, y1, p),
                ),
            forall|at: int|
                0 <= at < before.len() && !is_painted(at, width as int, height as int, p)
                    ==> #[trigger] buffer@[at] == before[at],
        decreases height - y,
    {
        let mut x: usize = 0;
        while x < width
            invariant
                width == board.width(),
                height == board.height(),
                width <= i32::MAX,
                height <= i32::MAX,
                p == pitch,
                3 * width <= p,
                width > 0 && height > 0 ==> (height - 1) * p + 3 * width <= before.len(),
                forall|state: T| cell_to_rgb.requires((state,)),
                y < height,
                x <= width,
                buffer@.len() == before.len(),
                before.len() <= usize::MAX,
                forall|x1: int, y1: int|
                    0 <= x1 < width && (0 <= y1 < y || (y1 == y && x1 < x)) ==> cell_to_rgb.ensures(
                        (board.cell(x1, y1),),
                        #[trigger] pixel(buffer@, x1, y1, p),
                    ),
                forall|at: int|
                    0 <= at < before.len() && !is_painted(at, width as int, height as int, p)
                        ==> #[trigger] buffer@[at] == before[at],
            decreases width - x,
        {
            proof {
                lemma_pixel_in_buffer(x as int, y as int, width as int, height as int, p, before.len() as int);
            }
            let offset: usize = y * pitch + x * 3;
            let cell = board.get_cell(x as i32, y as i32);
            let (r, g, b) = cell_to_rgb(cell);
            let ghost earlier = buffer@;
            buffer[offset] = r;
            buffer[offset + 1] = g;
            buffer[offset + 2] = b;
            proof {
                assert(pixel(buffer@, x as int, y as int, p) == (r, g, b));
                assert forall|x1: int, y1: int|
                    0 <= x1 < width && (0 <= y1 < y || (y1 == y && x1 < x)) implies #[trigger] pixel(
                    buffer@,
                    x1,
                    y1,
                    p,
                ) == pixel(earlier, x1, y1, p) by {
                    lemma_pixels_in_order(x1, y1, x as int, y as int, width as int, p);
                }
                assert(in_pixel(offset as int, x as int, y as int, p));
                assert(in_pixel(offset + 1, x as int, y as int, p));
                assert(in_pixel(offset + 2, x as int, y as int, p));
            }
            x += 1;
        }
        y += 1;
    }
}

/// Paints the board into `buffer` as `paint` does, if it can be painted
/// there, and says whether it was. A buffer that cannot take the board is
/// left as it was.
pub fn try_paint<T, U, F>(board: &U, buffer: &mut [u8], pitch: usize, cell_to_rgb: F) -> (painted:
    bool) where U: CellularAutomata<T>, F: Fn(T) -> (u8, u8, u8)
    requires
        forall|state: T| cell_to_rgb.requires((state,)),
    ensures
        painted == paintable(board.width(), board.height(), pitch as nat, old(buffer)@.len()),
        final(buffer)@.len() == old(buffer)@.len(),
        !painted ==> final(buffer)@ == old(buffer)@,
        painted ==> forall|x: int, y: int|
            0 <= x < board.width() && 0 <= y < board.height() ==> cell_to_rgb.ensures(
                (board.cell(x, y),),
                #[trigger] pixel(final(buffer)@, x, y, pitch as int),
            ),
        painted ==> forall|at: int|
            0 <= at < old(buffer)@.len() && !is_painted(
                at,
                board.width() as int,
                board.height() as int,
                pitch as int,
            ) ==> #[trigger] final(buffer)@[at] == old(buffer)@[at],
{
    let width = board.get_width();
    let height = board.get_height();
    let len = buffer.len();
    assert(len == buffer@.len());
    if width > i32::MAX as usize || height > i32::MAX as usize {
        return false;
    }
    // Both sides fit 64 bits, whatever the machine's word.
    let row: u64 = 3 * (width as u64);
    if row > pitch as u64 {
        return false;
    }
    if width > 0 && height > 0 {
        assert((height - 1) * pitch <= 0x8000_0000 * 0x1_0000_0000_0000_0000) by (nonlinear_arith)
            requires
                0 <= height - 1 <= 0x8000_0000,
                0 <= pitch <= 0x1_0000_0000_0000_0000,
        ;
        let end: u128 = (height as u128 - 1) * (pitch as u128) + row as u128;
        if end > len as u128 {
            return false;
        }
    }
    paint(board, buffer, pitch, cell_to_rgb);
    true
}

} // verus!
