//! The 64x32 monochrome frame buffer, and what drawing a sprite does to it.

use vstd::prelude::*;

verus! {

/// Cells in a row of the screen.
pub const WIDTH: usize = 64;

/// Rows of the screen.
pub const HEIGHT: usize = 32;

/// Cells of the screen.
pub const CELLS: usize = 2048;

/// Bytes that the frame buffer spends on one cell: alpha, red, green, blue.
pub const BYTES_PER_CELL: usize = 4;

/// Most rows that a sprite can have.
pub const MAX_SPRITE_ROWS: usize = 15;

/// The place in the screen, counted row by row, of the cell at column `x`
/// and row `y`. Coordinates beyond the edges wrap round.
pub open spec fn pixel_index(x: int, y: int) -> int {
    (y % 32) * 64 + x % 64
}

/// The screen with every cell unlit.
pub open spec fn blank() -> Seq<bool> {
    Seq::new(2048, |p: int| false)
}

/// Whether a sprite row has its bit for column `col` set. Column 0 is the
/// most significant bit.
pub open spec fn sprite_bit(row: u8, col: int) -> bool {
    (row >> ((7 - col) as u8)) & 1u8 == 1u8
}

/// Whether the sprite `rows`, placed with its top left corner at `(x, y)`,
/// has a set bit over cell `p` of the screen.
pub open spec fn toggles(rows: Seq<u8>, x: int, y: int, p: int) -> bool {
    let col = (p % 64 - x) % 64;
    let row = (p / 64 - y) % 32;
    col < 8 && row < rows.len() && sprite_bit(rows[row], col)
}

/// The screen after the sprite was drawn at `(x, y)`: each cell under a set
/// bit is flipped, every other cell is as it was.
pub open spec fn draw(screen: Seq<bool>, rows: Seq<u8>, x: int, y: int) -> Seq<bool> {
    Seq::new(2048, |p: int| screen[p] != toggles(rows, x, y, p))
}

/// Whether bit `col` of sprite row `row` is set and falls on a lit cell.
pub open spec fn hits(
    screen: Seq<bool>,
    rows: Seq<u8>,
    x: int,
    y: int,
    row: int,
    col: int,
) -> bool {
    &&& 0 <= row < rows.len()
    &&& 0 <= col < 8
    &&& sprite_bit(rows[row], col)
    &&& screen[pixel_index(x + col, y + row)]
}

/// Whether bit `col` of sprite row `row` is set and falls on an unlit cell.
pub open spec fn misses(
    screen: Seq<bool>,
    rows: Seq<u8>,
    x: int,
    y: int,
    row: int,
    col: int,
) -> bool {
    &&& 0 <= row < rows.len()
    &&& 0 <= col < 8
    &&& sprite_bit(rows[row], col)
    &&& !screen[pixel_index(x + col, y + row)]
}

/// Whether drawing the sprite at `(x, y)` turns a lit cell off.
pub open spec fn collides(screen: Seq<bool>, rows: Seq<u8>, x: int, y: int) -> bool {
    exists|row: int, col: int| #[trigger] hits(screen, rows, x, y, row, col)
}

/// The frame buffer bytes that show `screen`: four for each cell, row by row.
pub open spec fn argb_bytes(screen: Seq<bool>) -> Seq<u8> {
    Seq::new(
        8192,
        |i: int|
            if !screen[i / 4] {
                0u8
            } else if i % 4 == 0 || i % 4 == 2 {
                254u8
            } else {
                100u8
            },
    )
}

/// Drawing a sprite a second time at the same place undoes the first drawing.
pub proof fn lemma_draw_twice_restores(screen: Seq<bool>, rows: Seq<u8>, x: int, y: int)
    requires
        screen.len() == 2048,
    ensures
        draw(draw(screen, rows, x, y), rows, x, y) == screen,
{
    assert(draw(draw(screen, rows, x, y), rows, x, y) =~= screen);
}

/// A set bit of a sprite of at most 32 rows flips the cell it falls on.
proof fn lemma_set_bit_toggles(rows: Seq<u8>, x: int, y: int, row: int, col: int)
    requires
        rows.len() <= 32,
        0 <= x,
        0 <= y,
        0 <= row < rows.len(),
        0 <= col < 8,
    ensures
        0 <= pixel_index(x + col, y + row) < 2048,
        (pixel_index(x + col, y + row) % 64 - x) % 64 == col,
        (pixel_index(x + col, y + row) / 64 - y) % 32 == row,
        toggles(rows, x, y, pixel_index(x + col, y + row)) == sprite_bit(rows[row], col),
{
}

/// The second of two drawings at one place turns a cell off just where the
/// first turned one on: where a set bit of the sprite fell on an unlit cell.
pub proof fn lemma_second_draw_collides(screen: Seq<bool>, rows: Seq<u8>, x: int, y: int)
    requires
        screen.len() == 2048,
        rows.len() <= 32,
        0 <= x,
        0 <= y,
    ensures
        collides(draw(screen, rows, x, y), rows, x, y) <==> exists|row: int, col: int| #[trigger]
            misses(screen, rows, x, y, row, col),
{
    let drawn = draw(screen, rows, x, y);
    if collides(drawn, rows, x, y) {
        let (row, col) = choose|row: int, col: int| #[trigger] hits(drawn, rows, x, y, row, col);
        lemma_set_bit_toggles(rows, x, y, row, col);
        assert(misses(screen, rows, x, y, row, col));
    }
    if exists|row: int, col: int| #[trigger] misses(screen, rows, x, y, row, col) {
        let (row, col) = choose|row: int, col: int| #[trigger] misses(screen, rows, x, y, row, col);
        lemma_set_bit_toggles(rows, x, y, row, col);
        assert(hits(drawn, rows, x, y, row, col));
    }
}

/// Whether the four bytes of cell `p` hold the colour of a lit cell.
spec fn cell_lit(bytes: Seq<u8>, p: int) -> bool {
    &&& bytes[4 * p] == 254
    &&& bytes[4 * p + 1] == 100
    &&& bytes[4 * p + 2] == 254
    &&& bytes[4 * p + 3] == 100
}

/// Whether the four bytes of cell `p` are all zero.
spec fn cell_dark(bytes: Seq<u8>, p: int) -> bool {
    &&& bytes[4 * p] == 0
    &&& bytes[4 * p + 1] == 0
    &&& bytes[4 * p + 2] == 0
    &&& bytes[4 * p + 3] == 0
}

/// Whether `bytes` are the bytes of 2048 cells, each wholly lit or wholly
/// dark.
spec fn bytes_wf(bytes: Seq<u8>) -> bool {
    &&& bytes.len() == 8192
    &&& forall|p: int| 0 <= p < 2048 ==> #[trigger] cell_lit(bytes, p) || cell_dark(bytes, p)
}

/// The screen that `bytes` show.
spec fn screen_of(bytes: Seq<u8>) -> Seq<bool> {
    Seq::new(2048, |p: int| cell_lit(bytes, p))
}

/// Writing the four bytes of one cell sets that cell and no other.
proof fn lemma_cell_written(before: Seq<u8>, after: Seq<u8>, p: int, lit: bool)
    requires
        bytes_wf(before),
        0 <= p < 2048,
        after.len() == 8192,
        forall|i: int| 0 <= i < 8192 && !(4 * p <= i < 4 * p + 4) ==> after[i] == before[i],
        if lit {
            cell_lit(after, p)
        } else {
            cell_dark(after, p)
        },
    ensures
        bytes_wf(after),
        screen_of(after) == screen_of(before).update(p, lit),
{
    assert forall|q: int| 0 <= q < 2048 implies #[trigger] cell_lit(after, q) || cell_dark(
        after,
        q,
    ) by {
        assert(cell_lit(before, q) || cell_dark(before, q));
    }
    assert forall|q: int| 0 <= q < 2048 && q != p implies cell_lit(after, q) == cell_lit(
        before,
        q,
    ) by {}
    assert(screen_of(after) =~= screen_of(before).update(p, lit));
}

/// Whether bit `(row, col)` of a sprite comes before bit `(r, c)` in drawing
/// order: row by row, and from left to right within a row.
spec fn before(row: int, col: int, r: int, c: int) -> bool {
    row < r || (row == r && col < c)
}

/// Whether cell `p` lies under a set bit that is drawn before bit `(r, c)`.
spec fn toggled_before(rows: Seq<u8>, x: int, y: int, p: int, r: int, c: int) -> bool {
    toggles(rows, x, y, p) && before((p / 64 - y) % 32, (p % 64 - x) % 64, r, c)
}

/// The screen when the bits before `(r, c)` have been drawn.
spec fn drawn_before(screen: Seq<bool>, rows: Seq<u8>, x: int, y: int, r: int, c: int) -> Seq<
    bool,
> {
    Seq::new(2048, |p: int| screen[p] != toggled_before(rows, x, y, p, r, c))
}

/// Whether one of the bits before `(r, c)` turned a lit cell off.
spec fn collided_before(screen: Seq<bool>, rows: Seq<u8>, x: int, y: int, r: int, c: int) -> bool {
    exists|row: int, col: int| #[trigger]
        hits(screen, rows, x, y, row, col) && before(row, col, r, c)
}

/// What drawing bit `(r, c)` adds to the bits drawn before it.
proof fn lemma_draw_bit(
    screen: Seq<bool>,
    rows: Seq<u8>,
    x: int,
    y: int,
    r: int,
    c: int,
    now: Seq<bool>,
    collided: bool,
)
    requires
        screen.len() == 2048,
        rows.len() <= 32,
        0 <= x,
        0 <= y,
        0 <= r < rows.len(),
        0 <= c < 8,
        now == drawn_before(screen, rows, x, y, r, c),
        collided == collided_before(screen, rows, x, y, r, c),
    ensures
        now[pixel_index(x + c, y + r)] == screen[pixel_index(x + c, y + r)],
        sprite_bit(rows[r], c) ==> now.update(
            pixel_index(x + c, y + r),
            !now[pixel_index(x + c, y + r)],
        ) == drawn_before(screen, rows, x, y, r, c + 1),
        !sprite_bit(rows[r], c) ==> now == drawn_before(screen, rows, x, y, r, c + 1),
        collided_before(screen, rows, x, y, r, c + 1) == (collided || (sprite_bit(rows[r], c)
            && screen[pixel_index(x + c, y + r)])),
{
    let q = pixel_index(x + c, y + r);
    lemma_set_bit_toggles(rows, x, y, r, c);
    let next = drawn_before(screen, rows, x, y, r, c + 1);
    if sprite_bit(rows[r], c) {
        assert(now.update(q, !now[q]) =~= next);
    } else {
        assert(now =~= next);
    }
    if collided_before(screen, rows, x, y, r, c + 1) {
        let (row, col) = choose|row: int, col: int| #[trigger]
            hits(screen, rows, x, y, row, col) && before(row, col, r, c + 1);
        if !(row == r && col == c) {
            assert(hits(screen, rows, x, y, row, col) && before(row, col, r, c));
        }
    }
    if collided {
        let (row, col) = choose|row: int, col: int| #[trigger]
            hits(screen, rows, x, y, row, col) && before(row, col, r, c);
        assert(hits(screen, rows, x, y, row, col) && before(row, col, r, c + 1));
    }
    if sprite_bit(rows[r], c) && screen[q] {
        assert(hits(screen, rows, x, y, r, c) && before(r, c, r, c + 1));
    }
}

/// The end of a sprite row is the start of the next one.
proof fn lemma_draw_row_end(screen: Seq<bool>, rows: Seq<u8>, x: int, y: int, r: int)
    ensures
        drawn_before(screen, rows, x, y, r, 8) == drawn_before(screen, rows, x, y, r + 1, 0),
        collided_before(screen, rows, x, y, r, 8) == collided_before(screen, rows, x, y, r + 1, 0),
{
    assert(drawn_before(screen, rows, x, y, r, 8) =~= drawn_before(screen, rows, x, y, r + 1, 0));
    if collided_before(screen, rows, x, y, r, 8) {
        let (row, col) = choose|row: int, col: int| #[trigger]
            hits(screen, rows, x, y, row, col) && before(row, col, r, 8);
        assert(hits(screen, rows, x, y, row, col) && before(row, col, r + 1, 0));
    }
    if collided_before(screen, rows, x, y, r + 1, 0) {
        let (row, col) = choose|row: int, col: int| #[trigger]
            hits(screen, rows, x, y, row, col) && before(row, col, r + 1, 0);
        assert(hits(screen, rows, x, y, row, col) && before(row, col, r, 8));
    }
}

/// Before its first bit nothing of a sprite is drawn; after its last row
/// all of it is.
proof fn lemma_draw_ends(screen: Seq<bool>, rows: Seq<u8>, x: int, y: int)
    requires
        screen.len() == 2048,
    ensures
        drawn_before(screen, rows, x, y, 0, 0) == screen,
        !collided_before(screen, rows, x, y, 0, 0),
        drawn_before(screen, rows, x, y, rows.len() as int, 0) == draw(screen, rows, x, y),
        collided_before(screen, rows, x, y, rows.len() as int, 0) == collides(screen, rows, x, y),
{
    let n = rows.len() as int;
    assert(drawn_before(screen, rows, x, y, 0, 0) =~= screen);
    assert(drawn_before(screen, rows, x, y, n, 0) =~= draw(screen, rows, x, y));
    if collides(screen, rows, x, y) {
        let (row, col) = choose|row: int, col: int| #[trigger] hits(screen, rows, x, y, row, col);
        assert(hits(screen, rows, x, y, row, col) && before(row, col, n, 0));
    }
}

/// The frame buffer. Each cell takes four bytes, which hold the colour of a
/// lit cell or are all zero.
pub struct Display {
    frame_buffer: Vec<u8>,
}

impl View for Display {
    type V = Seq<bool>;

    /// The screen: for each cell, row by row, whether it is lit.
    closed spec fn view(&self) -> Seq<bool> {
        screen_of(self.frame_buffer@)
    }
}

impl Display {
    /// The invariant of the frame buffer: it has the bytes of 2048 cells, and
    /// each cell is wholly lit or wholly dark.
    pub closed spec fn wf(&self) -> bool {
        bytes_wf(self.frame_buffer@)
    }

    /// A screen has 2048 cells.
    pub proof fn lemma_view_len(&self)
        ensures
            self@.len() == 2048,
    {
    }

    /// A blank screen.
    pub fn new() -> (display: Self)
        ensures
            display.wf(),
            display@ == blank(),
    {
        let display = Display { frame_buffer: vec![0u8; 8192] };
        assert(display@ =~= blank());
        display
    }

    /// Unlights every cell.
    pub fn clear(&mut self)
        requires
            old(self).wf(),
        ensures
            final(self).wf(),
            final(self)@ == blank(),
    {
        self.frame_buffer = vec![0u8; self.frame_buffer.len()];
        assert(self@ =~= blank());
    }

    /// Flips the cell at column `x` and row `y`, and says whether it was lit.
    pub fn set_pixel(&mut self, x: usize, y: usize) -> (collided: bool)
        requires
            old(self).wf(),
        ensures
            final(self).wf(),
            collided == old(self)@[pixel_index(x as int, y as int)],
            final(self)@ == old(self)@.update(pixel_index(x as int, y as int), !collided),
    {
        let x: usize = if x >= 64 { x % 64 } else { x };
        let y: usize = if y >= 32 { y % 32 } else { y };
        let position: usize = (y * 64 + x) * 4;
        let ghost p: int = y * 64 + x;
        assert(cell_lit(self.frame_buffer@, p) || cell_dark(self.frame_buffer@, p));
        let a: u8 = self.frame_buffer[position];
        let r: u8 = self.frame_buffer[position + 1];
        let g: u8 = self.frame_buffer[position + 2];
        let b: u8 = self.frame_buffer[position + 3];
        assert((a | r | g | b) != 0 <==> !(a == 0 && r == 0 && g == 0 && b == 0)) by (bit_vector);
        let collided = (a | r | g | b) != 0;
        if collided {
            self.frame_buffer[position] = 0;
            self.frame_buffer[position + 1] = 0;
            self.frame_buffer[position + 2] = 0;
            self.frame_buffer[position + 3] = 0;
        } else {
            self.frame_buffer[position] = 254;
            self.frame_buffer[position + 1] = 100;
            self.frame_buffer[position + 2] = 254;
            self.frame_buffer[position + 3] = 100;
        }
        proof {
            lemma_cell_written(old(self).frame_buffer@, self.frame_buffer@, p, !collided);
        }
        collided
    }

    /// Draws a sprite with its top left corner at column `x` and row `y`, a
    /// row of eight cells for each byte of `rows`, and says whether a lit
    /// cell went off. Cells beyond the right or lower edge wrap round.
    pub fn draw_sprite(&mut self, x: u8, y: u8, rows: &[u8]) -> (collided: bool)
        requires
            old(self).wf(),
            rows@.len() <= MAX_SPRITE_ROWS,
        ensures
            final(self).wf(),
            final(self)@ == draw(old(self)@, rows@, x as int, y as int),
            collided == collides(old(self)@, rows@, x as int, y as int),
    {
        let mut collided = false;
        let mut row: usize = 0;
        proof {
            lemma_draw_ends(old(self)@, rows@, x as int, y as int);
        }
        while row < rows.len()
            invariant
                row <= rows@.len() <= 15,
                self.wf(),
                self@ == drawn_before(old(self)@, rows@, x as int, y as int, row as int, 0),
                collided == collided_before(old(self)@, rows@, x as int, y as int, row as int, 0),
            decreases rows@.len() - row,
        {
            let sprite: u8 = rows[row];
            let mut col: u8 = 0;
            while col < 8
                invariant
                    row < rows@.len() <= 15,
                    col <= 8,
                    sprite == rows@[row as int],
                    self.wf(),
                    self@ == drawn_before(
                        old(self)@,
                        rows@,
                        x as int,
                        y as int,
                        row as int,
                        col as int,
                    ),
                    collided == collided_before(
                        old(self)@,
                        rows@,
                        x as int,
                        y as int,
                        row as int,
                        col as int,
                    ),
                decreases 8 - col,
            {
                proof {
                    lemma_draw_bit(
                        old(self)@,
                        rows@,
                        x as int,
                        y as int,
                        row as int,
                        col as int,
                        self@,
                        collided,
                    );
                }
                if (sprite >> (7 - col)) & 1 == 1 {
                    if self.set_pixel(x as usize + col as usize, y as usize + row) {
                        collided = true;
                    }
                }
                col += 1;
            }
            proof {
                lemma_draw_row_end(old(self)@, rows@, x as int, y as int, row as int);
            }
            row += 1;
        }
        collided
    }

    /// Whether the cell at column `x` and row `y` is lit.
    pub fn pixel(&self, x: usize, y: usize) -> (lit: bool)
        requires
            self.wf(),
        ensures
            lit == self@[pixel_index(x as int, y as int)],
    {
        let position: usize = ((y % 32) * 64 + x % 64) * 4;
        let ghost p: int = (y % 32) * 64 + x % 64;
        assert(cell_lit(self.frame_buffer@, p) || cell_dark(self.frame_buffer@, p));
        self.frame_buffer[position] != 0
    }

    /// The bytes to show: for each cell, row by row, alpha, red, green and
    /// blue.
    pub fn frame_buffer(&self) -> (bytes: &Vec<u8>)
        requires
            self.wf(),
        ensures
            bytes@ == argb_bytes(self@),
    {
        proof {
            assert forall|i: int| 0 <= i < 8192 implies self.frame_buffer@[i] == argb_bytes(
                self@,
            )[i] by {
                let p = i / 4;
                assert(cell_lit(self.frame_buffer@, p) || cell_dark(self.frame_buffer@, p));
            }
            assert(self.frame_buffer@ =~= argb_bytes(self@));
        }
        &self.frame_buffer
    }
}

} // verus!
