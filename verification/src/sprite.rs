//! What drawing a sprite does to the pixel plane.
//!
//! A sprite is a run of bytes, one per row, eight pixels wide, the highest bit
//! leftmost. Drawn at a position it is laid over the plane with both
//! coordinates wrapping around the edges, and every pixel under a set bit is
//! flipped. The first byte of the sprite lies on the row of the position, each
//! further byte one row higher in number.

use vstd::prelude::*;
use crate::display::{pixel_index, HEIGHT, WIDTH};

verus! {

/// Width of every sprite, in pixels.
pub const SPRITE_WIDTH: u8 = 8;

/// Whether the bit for `column`, counted from the x, is set in a sprite row.
pub open spec fn row_bit(row: u8, column: int) -> bool {
    (row >> ((7 - column) as u8)) & 1 == 1
}

/// Column of the pixel stored at `index` of the raster.
pub open spec fn column_of(index: int) -> int {
    index % (WIDTH as int)
}

/// Row of the pixel stored at `index` of the raster.
pub open spec fn row_of(index: int) -> int {
    HEIGHT - 1 - index / (WIDTH as int)
}

/// Whether the sprite drawn at `(x, y)` has a set bit over the pixel at `index`.
pub open spec fn lit(sprite: Seq<u8>, x: u8, y: u8, index: int) -> bool {
    let column = (column_of(index) - x) % (WIDTH as int);
    let row = (row_of(index) - y) % (HEIGHT as int);
    &&& column < SPRITE_WIDTH
    &&& row < sprite.len()
    &&& row_bit(sprite[row], column)
}

/// The plane after the sprite has been drawn at `(x, y)`: each pixel under a
/// set bit is flipped, every other pixel is kept.
pub open spec fn drawn(plane: Seq<bool>, sprite: Seq<u8>, x: u8, y: u8) -> Seq<bool> {
    Seq::new(plane.len(), |index: int| plane[index] ^ lit(sprite, x, y, index))
}

/// Whether drawing the sprite at `(x, y)` turns a pixel off: a set bit lies
/// over a pixel that is on in `plane`.
pub open spec fn collides(plane: Seq<bool>, sprite: Seq<u8>, x: u8, y: u8) -> bool {
    exists|index: int| 0 <= index < plane.len() && plane[index] && #[trigger] lit(sprite, x, y, index)
}

/// As `lit`, looking only at the first `cells` cells of the sprite, taken row
/// by row and from the highest bit down within a row.
pub open spec fn lit_within(sprite: Seq<u8>, x: u8, y: u8, index: int, cells: int) -> bool {
    let column = (column_of(index) - x) % (WIDTH as int);
    let row = (row_of(index) - y) % (HEIGHT as int);
    &&& column < SPRITE_WIDTH
    &&& row < sprite.len()
    &&& row * SPRITE_WIDTH + column < cells
    &&& row_bit(sprite[row], column)
}

/// The plane after the first `cells` cells of the sprite have been drawn.
pub open spec fn drawn_within(plane: Seq<bool>, sprite: Seq<u8>, x: u8, y: u8, cells: int) -> Seq<bool> {
    Seq::new(plane.len(), |index: int| plane[index] ^ lit_within(sprite, x, y, index, cells))
}

/// Whether one of the first `cells` cells of the sprite has a set bit over a
/// pixel that is on in `plane`.
pub open spec fn collides_within(plane: Seq<bool>, sprite: Seq<u8>, x: u8, y: u8, cells: int) -> bool {
    exists|index: int|
        0 <= index < plane.len() && plane[index] && #[trigger] lit_within(sprite, x, y, index, cells)
}

/// Once every cell of the sprite is taken in, the whole sprite is drawn.
pub proof fn lemma_draw_everything(plane: Seq<bool>, sprite: Seq<u8>, x: u8, y: u8)
    ensures
        drawn_within(plane, sprite, x, y, sprite.len() * SPRITE_WIDTH) == drawn(plane, sprite, x, y),
        collides_within(plane, sprite, x, y, sprite.len() * SPRITE_WIDTH) == collides(
            plane,
            sprite,
            x,
            y,
        ),
{
    let cells = sprite.len() * SPRITE_WIDTH;
    assert forall|index: int| #[trigger]
        lit_within(sprite, x, y, index, cells) == lit(sprite, x, y, index) by {
        let column = (column_of(index) - x) % (WIDTH as int);
        let row = (row_of(index) - y) % (HEIGHT as int);
        if column < SPRITE_WIDTH && 0 <= row < sprite.len() {
            assert(row * SPRITE_WIDTH + column < cells);
        }
    }
    assert(drawn_within(plane, sprite, x, y, cells) =~= drawn(plane, sprite, x, y));
    if collides_within(plane, sprite, x, y, cells) {
        let index = choose|index: int|
            0 <= index < plane.len() && plane[index] && #[trigger] lit_within(
                sprite,
                x,
                y,
                index,
                cells,
            );
        assert(lit(sprite, x, y, index));
    }
    if collides(plane, sprite, x, y) {
        let index = choose|index: int|
            0 <= index < plane.len() && plane[index] && #[trigger] lit(sprite, x, y, index);
        assert(lit_within(sprite, x, y, index, cells));
    }
}

/// Raster positions and pixel coordinates name each other.
pub proof fn lemma_raster(index: int)
    requires
        0 <= index < WIDTH * HEIGHT,
    ensures
        0 <= column_of(index) < WIDTH,
        0 <= row_of(index) < HEIGHT,
        pixel_index(column_of(index), row_of(index)) == index,
{
}

/// The raster position of a pixel lies in the raster and gives back the
/// pixel's coordinates.
pub proof fn lemma_pixel_index(at_x: int, at_y: int)
    requires
        0 <= at_x < WIDTH,
        0 <= at_y < HEIGHT,
    ensures
        0 <= pixel_index(at_x, at_y) < WIDTH * HEIGHT,
        column_of(pixel_index(at_x, at_y)) == at_x,
        row_of(pixel_index(at_x, at_y)) == at_y,
{
}

/// On a circle of `size` places, `position` lies `offset` places after
/// `origin` exactly if going `offset` places on from `origin` ends at it.
proof fn lemma_wrapped_offset(position: int, origin: int, offset: int, size: int)
    requires
        size == WIDTH || size == HEIGHT,
        0 <= position < size,
        0 <= origin <= u8::MAX,
        0 <= offset < size,
    ensures
        ((position - origin) % size == offset) == ((origin + offset) % size == position),
{
    if size == WIDTH {
        assert(((position - origin) % 64 == offset) == ((origin + offset) % 64 == position));
    } else {
        assert(((position - origin) % 32 == offset) == ((origin + offset) % 32 == position));
    }
}

/// What `lit_within` says of one pixel when one more cell is taken in: the
/// pixel is lit as before, or it is the pixel under the new cell and the
/// cell's bit is set.
proof fn lemma_lit_one_more(
    sprite: Seq<u8>,
    x: u8,
    y: u8,
    row: int,
    column: int,
    index: int,
)
    requires
        sprite.len() <= HEIGHT,
        0 <= row < sprite.len(),
        0 <= column < SPRITE_WIDTH,
        0 <= index < WIDTH * HEIGHT,
    ensures
        ({
            let cells = row * SPRITE_WIDTH + column;
            let under = pixel_index(
                (x + column) % (WIDTH as int),
                (y + row) % (HEIGHT as int),
            );
            lit_within(sprite, x, y, index, cells + 1) == (lit_within(
                sprite,
                x,
                y,
                index,
                cells,
            ) || (index == under && row_bit(sprite[row], column)))
        }),
{
    let at_x = (x + column) % (WIDTH as int);
    let at_y = (y + row) % (HEIGHT as int);
    let c = (column_of(index) - x) % (WIDTH as int);
    let r = (row_of(index) - y) % (HEIGHT as int);
    lemma_raster(index);
    lemma_pixel_index(at_x, at_y);
    lemma_wrapped_offset(column_of(index), x as int, column, WIDTH as int);
    lemma_wrapped_offset(row_of(index), y as int, row, HEIGHT as int);
    if c == column && r == row {
        assert(index == pixel_index(at_x, at_y));
    }
    if index == pixel_index(at_x, at_y) {
        assert(c == column && r == row);
    }
}

/// Drawing cell number `cells` of the sprite, which lies `column` columns and
/// `row` rows after the position, flips the one pixel under it if its
/// bit is set, and adds a collision if that pixel was on.
pub proof fn lemma_draw_cell(
    plane: Seq<bool>,
    sprite: Seq<u8>,
    x: u8,
    y: u8,
    row: int,
    column: int,
)
    requires
        plane.len() == WIDTH * HEIGHT,
        sprite.len() <= HEIGHT,
        0 <= row < sprite.len(),
        0 <= column < SPRITE_WIDTH,
    ensures
        ({
            let cells = row * SPRITE_WIDTH + column;
            let index = pixel_index((x + column) % (WIDTH as int), (y + row) % (HEIGHT as int));
            let before = drawn_within(plane, sprite, x, y, cells);
            let bit = row_bit(sprite[row], column);
            &&& 0 <= index < plane.len()
            &&& before[index] == plane[index]
            &&& drawn_within(plane, sprite, x, y, cells + 1) == before.update(
                index,
                plane[index] ^ bit,
            )
            &&& collides_within(plane, sprite, x, y, cells + 1) == (collides_within(
                plane,
                sprite,
                x,
                y,
                cells,
            ) || (bit && plane[index]))
        }),
{
    let cells = row * SPRITE_WIDTH + column;
    let at_x = (x + column) % (WIDTH as int);
    let at_y = (y + row) % (HEIGHT as int);
    let index = pixel_index(at_x, at_y);
    let before = drawn_within(plane, sprite, x, y, cells);
    let after = drawn_within(plane, sprite, x, y, cells + 1);
    let bit = row_bit(sprite[row], column);
    lemma_pixel_index(at_x, at_y);
    assert forall|k: int| 0 <= k < plane.len() implies #[trigger] lit_within(
        sprite,
        x,
        y,
        k,
        cells + 1,
    ) == (lit_within(sprite, x, y, k, cells) || (k == index && bit)) by {
        lemma_lit_one_more(sprite, x, y, row, column, k);
    }
    assert(!lit_within(sprite, x, y, index, cells)) by {
        lemma_wrapped_offset(at_x, x as int, column, WIDTH as int);
        lemma_wrapped_offset(at_y, y as int, row, HEIGHT as int);
    }
    assert(after =~= before.update(index, plane[index] ^ bit));
    if collides_within(plane, sprite, x, y, cells + 1) {
        let k = choose|k: int|
            0 <= k < plane.len() && plane[k] && #[trigger] lit_within(sprite, x, y, k, cells + 1);
        assert(lit_within(sprite, x, y, k, cells) || (k == index && bit));
    }
    if collides_within(plane, sprite, x, y, cells) {
        let k = choose|k: int|
            0 <= k < plane.len() && plane[k] && #[trigger] lit_within(sprite, x, y, k, cells);
        assert(lit_within(sprite, x, y, k, cells + 1));
    }
    if bit && plane[index] {
        assert(lit_within(sprite, x, y, index, cells + 1));
    }
}

/// Before any cell is drawn the plane is as it was and nothing has collided.
pub proof fn lemma_draw_nothing(plane: Seq<bool>, sprite: Seq<u8>, x: u8, y: u8)
    ensures
        drawn_within(plane, sprite, x, y, 0) == plane,
        !collides_within(plane, sprite, x, y, 0),
{
    assert(drawn_within(plane, sprite, x, y, 0) =~= plane);
}

/// Drawing the same sprite twice at the same position restores the plane.
pub proof fn lemma_draw_twice(plane: Seq<bool>, sprite: Seq<u8>, x: u8, y: u8)
    ensures
        drawn(drawn(plane, sprite, x, y), sprite, x, y) == plane,
{
    assert(drawn(drawn(plane, sprite, x, y), sprite, x, y) =~= plane);
}

/// In the byte `0x80` only the leftmost bit is set.
proof fn lemma_leftmost_bit(column: u8)
    by (bit_vector)
    requires
        column < 8,
    ensures
        ((0x80u8 >> ((7 - column) as u8)) & 1 == 1) == (column == 0),
{
}

/// A sprite of one row with only its leftmost bit set flips exactly the pixel
/// at the position, and collides exactly if that pixel is on.
pub proof fn lemma_draw_single_pixel(plane: Seq<bool>, x: u8, y: u8)
    requires
        plane.len() == WIDTH * HEIGHT,
    ensures
        ({
            let index = pixel_index(x as int % (WIDTH as int), y as int % (HEIGHT as int));
            &&& 0 <= index < plane.len()
            &&& drawn(plane, seq![0x80u8], x, y) == plane.update(index, !plane[index])
            &&& collides(plane, seq![0x80u8], x, y) == plane[index]
        }),
{
    let sprite = seq![0x80u8];
    lemma_draw_nothing(plane, sprite, x, y);
    lemma_draw_cell(plane, sprite, x, y, 0, 0);
    lemma_draw_everything(plane, sprite, x, y);
    assert(row_bit(0x80u8, 0)) by {
        lemma_leftmost_bit(0);
    }
    assert forall|k: int| 0 <= k < plane.len() implies #[trigger] lit_within(sprite, x, y, k, 8)
        == lit_within(sprite, x, y, k, 1) by {
        let c = (column_of(k) - x) % (WIDTH as int);
        if 0 < c < 8 {
            lemma_leftmost_bit(c as u8);
        }
    }
    assert(drawn_within(plane, sprite, x, y, 8) =~= drawn_within(plane, sprite, x, y, 1));
    if collides_within(plane, sprite, x, y, 8) {
        let k = choose|k: int|
            0 <= k < plane.len() && plane[k] && #[trigger] lit_within(sprite, x, y, k, 8);
        assert(lit_within(sprite, x, y, k, 1));
    }
    if collides_within(plane, sprite, x, y, 1) {
        let k = choose|k: int|
            0 <= k < plane.len() && plane[k] && #[trigger] lit_within(sprite, x, y, k, 1);
        assert(lit_within(sprite, x, y, k, 8));
    }
}

} // verus!
