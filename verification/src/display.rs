//! The 64x32 monochrome pixel plane and the sprites that are XOR-composited
//! onto it.

use vstd::prelude::*;

verus! {

/// Width of the pixel plane.
pub const WIDTH: usize = 64;

/// Height of the pixel plane.
pub const HEIGHT: usize = 32;

/// Number of pixels of the plane, stored row by row.
pub const PIXELS: usize = 2048;

/// A bitmap of up to fifteen rows of eight pixels, with the position of its
/// top left corner. The most significant bit of a row is its leftmost pixel.
pub struct Sprite {
    pub data: [u8; 15],
    pub length: u8,
    pub x: usize,
    pub y: usize,
}

/// Mathematical model of a sprite: the rows that are drawn, top row first,
/// and the position of the top left corner.
pub struct SpriteView {
    pub rows: Seq<u8>,
    pub x: int,
    pub y: int,
}

impl View for Sprite {
    type V = SpriteView;

    open spec fn view(&self) -> SpriteView {
        SpriteView {
            rows: self.data@.subrange(0, self.length as int),
            x: self.x as int,
            y: self.y as int,
        }
    }
}

impl SpriteView {
    /// A sprite has at most fifteen rows and stands at a position that is not
    /// negative.
    pub open spec fn well_formed(self) -> bool {
        self.rows.len() <= 15 && 0 <= self.x && 0 <= self.y
    }
}

/// Whether pixel `col` of a sprite row is set, column 0 being the leftmost.
pub open spec fn bit_set(byte: u8, col: int) -> bool {
    byte & (0x80u8 >> (col as u8)) != 0
}

/// The column of the sprite that falls on pixel `p` of the plane: the distance
/// from the sprite's origin to the pixel's column, going right with wraparound
/// at the right edge.
pub open spec fn sprite_col(sprite: SpriteView, p: int) -> int {
    (p % 64 + 64 - sprite.x % 64) % 64
}

/// The row of the sprite that falls on pixel `p` of the plane: the distance
/// from the sprite's origin to the pixel's row, going down with wraparound at
/// the bottom edge.
pub open spec fn sprite_row(sprite: SpriteView, p: int) -> int {
    (p / 64 + 32 - sprite.y % 32) % 32
}

/// The index in the plane of the pixel on which the sprite's pixel
/// (`row`, `col`) falls.
pub open spec fn cell(sprite: SpriteView, row: int, col: int) -> int {
    ((sprite.y + row) % 32) * 64 + (sprite.x + col) % 64
}

/// Whether the sprite has a set pixel that falls on pixel `p` of the plane.
pub open spec fn lit_by(sprite: SpriteView, p: int) -> bool {
    let col = sprite_col(sprite, p);
    let row = sprite_row(sprite, p);
    col < 8 && row < sprite.rows.len() && bit_set(sprite.rows[row], col)
}

/// The plane after the sprite has been composited onto it: each pixel that the
/// sprite lights is flipped, every other pixel is kept.
pub open spec fn blit(pixels: Seq<bool>, sprite: SpriteView) -> Seq<bool> {
    Seq::new(2048, |p: int| pixels[p] != lit_by(sprite, p))
}

/// Whether compositing the sprite turns off a pixel that was on.
pub open spec fn collides(pixels: Seq<bool>, sprite: SpriteView) -> bool {
    exists|p: int| 0 <= p < 2048 && #[trigger] pixels[p] && lit_by(sprite, p)
}

/// Whether the sprite has any set pixel in the rows it draws.
pub open spec fn has_ink(sprite: SpriteView) -> bool {
    exists|row: int, col: int|
        0 <= row < sprite.rows.len() && 0 <= col < 8 && #[trigger] bit_set(sprite.rows[row], col)
}

spec fn reached(sprite: SpriteView, p: int, row: int, col: int) -> bool {
    let r = sprite_row(sprite, p);
    let c = sprite_col(sprite, p);
    r < row || (r == row && c < col)
}

spec fn blit_upto(pixels: Seq<bool>, sprite: SpriteView, row: int, col: int) -> Seq<bool> {
    Seq::new(2048, |p: int| pixels[p] != (lit_by(sprite, p) && reached(sprite, p, row, col)))
}

spec fn collides_upto(pixels: Seq<bool>, sprite: SpriteView, row: int, col: int) -> bool {
    exists|p: int|
        0 <= p < 2048 && #[trigger] pixels[p] && lit_by(sprite, p) && reached(sprite, p, row, col)
}

proof fn lemma_wrap_columns(o: int, d: int)
    requires
        0 <= d < 64,
    ensures
        0 <= (o + d) % 64 < 64,
        ((o + d) % 64 + 64 - o % 64) % 64 == d,
        forall|q: int| 0 <= q < 64 && #[trigger] ((q + 64 - o % 64) % 64) == d ==> q == (o + d) % 64,
{
    let r = o % 64;
    assert((o + d) % 64 == (r + d) % 64) by {
        vstd::arithmetic::div_mod::lemma_add_mod_noop(o, d, 64);
        vstd::arithmetic::div_mod::lemma_add_mod_noop(r, d, 64);
        vstd::arithmetic::div_mod::lemma_mod_twice(o, 64);
    }
    assert(0 <= r < 64);
}

proof fn lemma_wrap_rows(o: int, d: int)
    requires
        0 <= d < 32,
    ensures
        0 <= (o + d) % 32 < 32,
        ((o + d) % 32 + 32 - o % 32) % 32 == d,
        forall|q: int| 0 <= q < 32 && #[trigger] ((q + 32 - o % 32) % 32) == d ==> q == (o + d) % 32,
{
    let r = o % 32;
    assert((o + d) % 32 == (r + d) % 32) by {
        vstd::arithmetic::div_mod::lemma_add_mod_noop(o, d, 32);
        vstd::arithmetic::div_mod::lemma_add_mod_noop(r, d, 32);
        vstd::arithmetic::div_mod::lemma_mod_twice(o, 32);
    }
    assert(0 <= r < 32);
}

/// The sprite's pixel (`row`, `col`) falls on exactly one pixel of the plane,
/// and no other pixel of the sprite falls there.
pub proof fn lemma_cell(sprite: SpriteView, row: int, col: int)
    requires
        0 <= row < 32,
        0 <= col < 64,
    ensures
        0 <= cell(sprite, row, col) < 2048,
        cell(sprite, row, col) / 64 == (sprite.y + row) % 32,
        cell(sprite, row, col) % 64 == (sprite.x + col) % 64,
        sprite_row(sprite, cell(sprite, row, col)) == row,
        sprite_col(sprite, cell(sprite, row, col)) == col,
        forall|p: int|
            0 <= p < 2048 && #[trigger] sprite_row(sprite, p) == row && sprite_col(sprite, p) == col
                ==> p == cell(sprite, row, col),
{
    let px = (sprite.x + col) % 64;
    let py = (sprite.y + row) % 32;
    lemma_wrap_columns(sprite.x, col);
    lemma_wrap_rows(sprite.y, row);
    let c = py * 64 + px;
    assert(c / 64 == py && c % 64 == px);
    assert forall|p: int|
        0 <= p < 2048 && #[trigger] sprite_row(sprite, p) == row && sprite_col(sprite, p)
            == col implies p == c by {
        let qx = p % 64;
        let qy = p / 64;
        assert((qx + 64 - sprite.x % 64) % 64 == col);
        assert((qy + 32 - sprite.y % 32) % 32 == row);
        assert(qx == px);
        assert(qy == py);
    }
}

/// A sprite column that would fall beyond the right edge of the plane falls on
/// the left instead, and a row beyond the bottom edge falls on the top: of a
/// sprite that starts in column 60, columns 4 to 7 fall on columns 0 to 3.
pub proof fn lemma_cell_wraps(sprite: SpriteView, row: int, col: int)
    requires
        0 <= row < 32,
        0 <= col < 64,
    ensures
        ({
            let x = sprite.x % 64 + col;
            cell(sprite, row, col) % 64 == if x < 64 {
                x
            } else {
                x - 64
            }
        }),
        ({
            let y = sprite.y % 32 + row;
            cell(sprite, row, col) / 64 == if y < 32 {
                y
            } else {
                y - 32
            }
        }),
{
    lemma_cell(sprite, row, col);
    lemma_wrap_columns(sprite.x, col);
    lemma_wrap_rows(sprite.y, row);
    assert((sprite.x % 64 + col) % 64 == (sprite.x + col) % 64) by {
        vstd::arithmetic::div_mod::lemma_add_mod_noop(sprite.x, col, 64);
        vstd::arithmetic::div_mod::lemma_add_mod_noop(sprite.x % 64, col, 64);
        vstd::arithmetic::div_mod::lemma_mod_twice(sprite.x, 64);
    }
    assert((sprite.y % 32 + row) % 32 == (sprite.y + row) % 32) by {
        vstd::arithmetic::div_mod::lemma_add_mod_noop(sprite.y, row, 32);
        vstd::arithmetic::div_mod::lemma_add_mod_noop(sprite.y % 32, row, 32);
        vstd::arithmetic::div_mod::lemma_mod_twice(sprite.y, 32);
    }
}

/// A set pixel of the sprite lights the pixel of the plane it falls on, and an
/// unset one does not.
pub proof fn lemma_lit_by_cell(sprite: SpriteView, row: int, col: int)
    requires
        sprite.well_formed(),
        0 <= row < sprite.rows.len(),
        0 <= col < 8,
    ensures
        lit_by(sprite, cell(sprite, row, col)) == bit_set(sprite.rows[row], col),
{
    lemma_cell(sprite, row, col);
}

proof fn lemma_blit_step(pixels: Seq<bool>, sprite: SpriteView, row: int, col: int)
    requires
        pixels.len() == 2048,
        sprite.well_formed(),
        0 <= row < sprite.rows.len(),
        0 <= col < 8,
    ensures
        blit_upto(pixels, sprite, row, col)[cell(sprite, row, col)] == pixels[cell(
            sprite,
            row,
            col,
        )],
        blit_upto(pixels, sprite, row, col + 1) == blit_upto(pixels, sprite, row, col).update(
            cell(sprite, row, col),
            pixels[cell(sprite, row, col)] != bit_set(sprite.rows[row], col),
        ),
        collides_upto(pixels, sprite, row, col + 1) == (collides_upto(pixels, sprite, row, col) || (
        pixels[cell(sprite, row, col)] && bit_set(sprite.rows[row], col))),
{
    let c = cell(sprite, row, col);
    lemma_cell(sprite, row, col);
    assert(!reached(sprite, c, row, col));
    assert(reached(sprite, c, row, col + 1));
    assert forall|p: int| 0 <= p < 2048 && p != c implies reached(sprite, p, row, col + 1)
        == reached(sprite, p, row, col) by {}
    assert(blit_upto(pixels, sprite, row, col + 1) =~= blit_upto(pixels, sprite, row, col).update(
        c,
        pixels[c] != bit_set(sprite.rows[row], col),
    ));
    if collides_upto(pixels, sprite, row, col + 1) {
        let p = choose|p: int|
            0 <= p < 2048 && #[trigger] pixels[p] && lit_by(sprite, p) && reached(
                sprite,
                p,
                row,
                col + 1,
            );
        if p != c {
            assert(reached(sprite, p, row, col));
        }
    }
    if collides_upto(pixels, sprite, row, col) {
        let p = choose|p: int|
            0 <= p < 2048 && #[trigger] pixels[p] && lit_by(sprite, p) && reached(
                sprite,
                p,
                row,
                col,
            );
        assert(reached(sprite, p, row, col + 1));
    }
    if pixels[c] && bit_set(sprite.rows[row], col) {
        assert(lit_by(sprite, c));
    }
}

proof fn lemma_blit_row(pixels: Seq<bool>, sprite: SpriteView, row: int)
    requires
        pixels.len() == 2048,
        sprite.well_formed(),
        0 <= row < sprite.rows.len(),
    ensures
        blit_upto(pixels, sprite, row + 1, 0) == blit_upto(pixels, sprite, row, 8),
        collides_upto(pixels, sprite, row + 1, 0) == collides_upto(pixels, sprite, row, 8),
{
    assert forall|p: int| 0 <= p < 2048 && lit_by(sprite, p) implies reached(
        sprite,
        p,
        row + 1,
        0,
    ) == reached(sprite, p, row, 8) by {}
    assert(blit_upto(pixels, sprite, row + 1, 0) =~= blit_upto(pixels, sprite, row, 8));
    if collides_upto(pixels, sprite, row + 1, 0) {
        let p = choose|p: int|
            0 <= p < 2048 && #[trigger] pixels[p] && lit_by(sprite, p) && reached(
                sprite,
                p,
                row + 1,
                0,
            );
        assert(reached(sprite, p, row, 8));
    }
    if collides_upto(pixels, sprite, row, 8) {
        let p = choose|p: int|
            0 <= p < 2048 && #[trigger] pixels[p] && lit_by(sprite, p) && reached(
                sprite,
                p,
                row,
                8,
            );
        assert(reached(sprite, p, row + 1, 0));
    }
}

proof fn lemma_blit_ends(pixels: Seq<bool>, sprite: SpriteView)
    requires
        pixels.len() == 2048,
        sprite.well_formed(),
    ensures
        blit_upto(pixels, sprite, 0, 0) == pixels,
        !collides_upto(pixels, sprite, 0, 0),
        blit_upto(pixels, sprite, sprite.rows.len() as int, 0) == blit(pixels, sprite),
        collides_upto(pixels, sprite, sprite.rows.len() as int, 0) == collides(pixels, sprite),
{
    let n = sprite.rows.len() as int;
    assert forall|p: int| 0 <= p < 2048 implies !reached(sprite, p, 0, 0) by {}
    assert(blit_upto(pixels, sprite, 0, 0) =~= pixels);
    assert forall|p: int| 0 <= p < 2048 && lit_by(sprite, p) implies reached(sprite, p, n, 0) by {}
    assert(blit_upto(pixels, sprite, n, 0) =~= blit(pixels, sprite));
    if collides(pixels, sprite) {
        let p = choose|p: int| 0 <= p < 2048 && #[trigger] pixels[p] && lit_by(sprite, p);
        assert(reached(sprite, p, n, 0));
    }
}

/// Compositing the same sprite twice at the same place restores the plane:
/// each pixel that the sprite lights is flipped twice.
pub proof fn lemma_blit_twice(pixels: Seq<bool>, sprite: SpriteView)
    requires
        pixels.len() == 2048,
    ensures
        blit(blit(pixels, sprite), sprite) == pixels,
{
    assert(blit(blit(pixels, sprite), sprite) =~= pixels);
}

/// The plane collides with a sprite exactly where a pixel that the sprite
/// lights is on. So where none of them is on, the first draw reports no
/// collision, and a second draw of the same sprite at the same place reports
/// one if the sprite has any set pixel at all: they all go off again.
pub proof fn lemma_redraw_collides(pixels: Seq<bool>, sprite: SpriteView)
    requires
        pixels.len() == 2048,
        sprite.well_formed(),
        !collides(pixels, sprite),
    ensures
        collides(blit(pixels, sprite), sprite) == has_ink(sprite),
{
    let drawn = blit(pixels, sprite);
    if has_ink(sprite) {
        let (row, col) = choose|row: int, col: int|
            0 <= row < sprite.rows.len() && 0 <= col < 8 && #[trigger] bit_set(
                sprite.rows[row],
                col,
            );
        let p = cell(sprite, row, col);
        lemma_cell(sprite, row, col);
        lemma_lit_by_cell(sprite, row, col);
        assert(!(pixels[p] && lit_by(sprite, p)));
        assert(drawn[p] && lit_by(sprite, p));
    }
    if collides(drawn, sprite) {
        let p = choose|p: int| 0 <= p < 2048 && #[trigger] drawn[p] && lit_by(sprite, p);
        assert(bit_set(sprite.rows[sprite_row(sprite, p)], sprite_col(sprite, p)));
    }
}

/// On a plane with every pixel off, a draw reports no collision.
pub proof fn lemma_blank_never_collides(sprite: SpriteView)
    ensures
        !collides(Seq::new(2048, |p: int| false), sprite),
{
}

/// The eight pixels of a sprite row, leftmost first.
pub fn bits(byte: u8) -> (r: [bool; 8])
    ensures
        forall|col: int| 0 <= col < 8 ==> r@[col] == bit_set(byte, col),
{
    let r = [
        byte & 0b10000000 != 0,
        byte & 0b01000000 != 0,
        byte & 0b00100000 != 0,
        byte & 0b00010000 != 0,
        byte & 0b00001000 != 0,
        byte & 0b00000100 != 0,
        byte & 0b00000010 != 0,
        byte & 0b00000001 != 0,
    ];
    proof {
        assert(0x80u8 >> 0u8 == 0b10000000u8) by (bit_vector);
        assert(0x80u8 >> 1u8 == 0b01000000u8) by (bit_vector);
        assert(0x80u8 >> 2u8 == 0b00100000u8) by (bit_vector);
        assert(0x80u8 >> 3u8 == 0b00010000u8) by (bit_vector);
        assert(0x80u8 >> 4u8 == 0b00001000u8) by (bit_vector);
        assert(0x80u8 >> 5u8 == 0b00000100u8) by (bit_vector);
        assert(0x80u8 >> 6u8 == 0b00000010u8) by (bit_vector);
        assert(0x80u8 >> 7u8 == 0b00000001u8) by (bit_vector);
    }
    r
}

pub struct Display {
    pixels: [bool; 2048],
}

impl View for Display {
    type V = Seq<bool>;

    /// The pixels row by row: pixel (`x`, `y`) stands at index `y * 64 + x`.
    closed spec fn view(&self) -> Seq<bool> {
        self.pixels@
    }
}

impl Display {
    /// Every plane holds exactly 64 x 32 pixels.
    pub proof fn lemma_size(&self)
        ensures
            self@.len() == 2048,
    {
    }

    pub fn new() -> (r: Self)
        ensures
            r@ == Seq::new(2048, |p: int| false),
    {
        let r = Self { pixels: [false; 2048] };
        assert(r@ =~= Seq::new(2048, |p: int| false));
        r
    }

    /// Turns every pixel off.
    pub fn clear(&mut self)
        ensures
            final(self)@ == Seq::new(2048, |p: int| false),
    {
        let mut p: usize = 0;
        while p < PIXELS
            invariant
                p <= 2048,
                forall|q: int| 0 <= q < p ==> !self.pixels@[q],
            decreases 2048 - p,
        {
            self.pixels[p] = false;
            p += 1;
        }
        assert(self@ =~= Seq::new(2048, |p: int| false));
    }

    /// Composites the sprite onto the plane by exclusive or, wrapping at the
    /// right and bottom edges, and returns 1 if that turned off any pixel that
    /// was on, else 0.
    pub fn draw_sprite(&mut self, sprite: &Sprite) -> (r: u8)
        requires
            sprite.length <= 15,
        ensures
            final(self)@ == blit(old(self)@, sprite@),
            r == if collides(old(self)@, sprite@) { 1u8 } else { 0u8 },
    {
        let ghost before = self@;
        let x0: usize = sprite.x % WIDTH;
        let y0: usize = sprite.y % HEIGHT;
        let mut flipped = false;
        let mut row: usize = 0;
        proof {
            lemma_blit_ends(before, sprite@);
        }
        while row < sprite.length as usize
            invariant
                before.len() == 2048,
                sprite.length <= 15,
                x0 == sprite.x % 64,
                y0 == sprite.y % 32,
                row <= sprite.length,
                self@ == blit_upto(before, sprite@, row as int, 0),
                flipped == collides_upto(before, sprite@, row as int, 0),
            decreases sprite.length - row,
        {
            let line = bits(sprite.data[row]);
            let mut col: usize = 0;
            while col < 8
                invariant
                    before.len() == 2048,
                    sprite.length <= 15,
                    x0 == sprite.x % 64,
                    y0 == sprite.y % 32,
                    row < sprite.length,
                    col <= 8,
                    forall|c: int| 0 <= c < 8 ==> line@[c] == bit_set(sprite@.rows[row as int], c),
                    self@ == blit_upto(before, sprite@, row as int, col as int),
                    flipped == collides_upto(before, sprite@, row as int, col as int),
                decreases 8 - col,
            {
                let x: usize = (x0 + col) % WIDTH;
                let y: usize = (y0 + row) % HEIGHT;
                proof {
                    lemma_cell(sprite@, row as int, col as int);
                    lemma_blit_step(before, sprite@, row as int, col as int);
                    assert(y * 64 + x == cell(sprite@, row as int, col as int));
                }
                let old_pixel = self.pixels[y * WIDTH + x];
                let new_pixel = old_pixel != line[col];
                self.pixels[y * WIDTH + x] = new_pixel;
                // a pixel that was on and is now off is a collision
                flipped = flipped || (old_pixel && !new_pixel);
                col += 1;
            }
            proof {
                lemma_blit_row(before, sprite@, row as int);
            }
            row += 1;
        }
        proof {
            lemma_blit_ends(before, sprite@);
        }
        if flipped {
            1
        } else {
            0
        }
    }

    /// The pixels, row by row, for presentation.
    pub fn read_pixels(&self) -> (r: &[bool; 2048])
        ensures
            r@ == self@,
    {
        &self.pixels
    }
}

} // verus!
