//! The 8x8 bit grid that holds what one module is meant to show.

use vstd::prelude::*;

verus! {

/// The bit of a row byte that stands for column `x`: column 0 is the most
/// significant bit, column 7 the least.
pub open spec fn column_bit(x: u8) -> u8 {
    0x80u8 >> x
}

/// Whether column `x` is lit in the row byte `row`.
pub open spec fn row_lit(row: u8, x: u8) -> bool {
    row & column_bit(x) != 0
}

/// The row byte `row` with column `x` switched on or off.
pub open spec fn row_with(row: u8, x: u8, on: bool) -> u8 {
    if on {
        row | column_bit(x)
    } else {
        row & !column_bit(x)
    }
}

/// Writing a column changes that column to the value written and no other.
pub proof fn lemma_row_with(row: u8, x: u8, on: bool, other: u8)
    requires
        x < 8,
        other < 8,
    ensures
        row_lit(row_with(row, x, on), x) == on,
        other != x ==> row_lit(row_with(row, x, on), other) == row_lit(row, other),
{
    assert((row | (0x80u8 >> x)) & (0x80u8 >> x) != 0) by (bit_vector)
        requires
            x < 8,
    ;
    assert((row & !(0x80u8 >> x)) & (0x80u8 >> x) == 0) by (bit_vector)
        requires
            x < 8,
    ;
    assert(other != x ==> (row | (0x80u8 >> x)) & (0x80u8 >> other) == row & (0x80u8 >> other))
        by (bit_vector)
        requires
            x < 8,
            other < 8,
    ;
    assert(other != x ==> (row & !(0x80u8 >> x)) & (0x80u8 >> other) == row & (0x80u8 >> other))
        by (bit_vector)
        requires
            x < 8,
            other < 8,
    ;
}

/// The pixels of one module: eight row bytes, top row first.
#[derive(Clone, Copy, Debug)]
pub struct Framebuffer {
    pub rows: [u8; 8],
}

impl View for Framebuffer {
    type V = Seq<u8>;

    /// The eight row bytes, in order.
    open spec fn view(&self) -> Seq<u8> {
        self.rows@
    }
}

/// The rows of a buffer with nothing lit.
pub open spec fn blank_rows() -> Seq<u8> {
    Seq::new(8, |i: int| 0u8)
}

/// Whether the pixel in column `x` of row `y` is lit in `rows`.
pub open spec fn lit(rows: Seq<u8>, x: u8, y: u8) -> bool {
    row_lit(rows[y as int], x)
}

/// `rows` after the pixel in column `x` of row `y` was written.
pub open spec fn rows_with(rows: Seq<u8>, x: u8, y: u8, on: bool) -> Seq<u8> {
    rows.update(y as int, row_with(rows[y as int], x, on))
}

/// Switching a pixel on and then off leaves the rows as switching it off
/// alone does; rows in which the pixel was off are restored exactly.
pub proof fn lemma_set_then_clear(rows: Seq<u8>, x: u8, y: u8)
    requires
        rows.len() == 8,
        x < 8,
        y < 8,
    ensures
        rows_with(rows_with(rows, x, y, true), x, y, false) == rows_with(rows, x, y, false),
        !lit(rows, x, y) ==> rows_with(rows_with(rows, x, y, true), x, y, false) == rows,
{
    let row: u8 = rows[y as int];
    assert((row | (0x80u8 >> x)) & !(0x80u8 >> x) == row & !(0x80u8 >> x)) by (bit_vector);
    assert(row & (0x80u8 >> x) == 0 ==> row & !(0x80u8 >> x) == row) by (bit_vector);
    assert(rows_with(rows_with(rows, x, y, true), x, y, false) =~= rows_with(rows, x, y, false));
    if !lit(rows, x, y) {
        assert(rows_with(rows, x, y, false) =~= rows);
    }
}

impl Framebuffer {
    /// Whether the pixel in column `x` of row `y` is lit.
    pub open spec fn pixel(&self, x: u8, y: u8) -> bool {
        lit(self@, x, y)
    }

    /// A buffer with nothing lit.
    pub fn new() -> (fb: Framebuffer)
        ensures
            fb@ == blank_rows(),
    {
        let fb = Framebuffer { rows: [0u8; 8] };
        assert(fb@ =~= blank_rows());
        fb
    }

    /// A buffer that holds the given rows.
    pub fn from_rows(rows: [u8; 8]) -> (fb: Framebuffer)
        ensures
            fb@ == rows@,
    {
        Framebuffer { rows }
    }

    /// Switches one pixel on or off.  Nothing is sent to the hardware.
    pub fn set_pixel(&mut self, x: u8, y: u8, on: bool)
        requires
            x < 8,
            y < 8,
        ensures
            final(self)@ == rows_with(old(self)@, x, y, on),
            final(self).pixel(x, y) == on,
            forall|i: u8, j: u8|
                i < 8 && j < 8 && (i != x || j != y) ==> final(self).pixel(i, j) == old(self).pixel(
                    i,
                    j,
                ),
    {
        let bit: u8 = 0x80u8 >> x;
        let row: u8 = self.rows[y as usize];
        let updated: u8 = if on {
            row | bit
        } else {
            row & !bit
        };
        self.rows[y as usize] = updated;
        proof {
            assert(self@ =~= rows_with(old(self)@, x, y, on));
            lemma_row_with(row, x, on, x);
            assert forall|i: u8, j: u8| i < 8 && j < 8 && (i != x || j != y) implies self.pixel(
                i,
                j,
            ) == old(self).pixel(i, j) by {
                if j == y {
                    lemma_row_with(row, x, on, i);
                }
            }
        }
    }

    /// Reads one pixel.
    pub fn get_pixel(&self, x: u8, y: u8) -> (on: bool)
        requires
            x < 8,
            y < 8,
        ensures
            on == self.pixel(x, y),
    {
        let bit: u8 = 0x80u8 >> x;
        (self.rows[y as usize] & bit) != 0
    }

    /// Switches every pixel off.  Nothing is sent to the hardware.
    pub fn clear(&mut self)
        ensures
            final(self)@ == blank_rows(),
    {
        self.rows = [0u8; 8];
        assert(self@ =~= blank_rows());
    }

    /// Replaces all eight rows.
    pub fn set_rows(&mut self, rows: [u8; 8])
        ensures
            final(self)@ == rows@,
    {
        self.rows = rows;
    }

    /// The eight row bytes, top row first.
    pub fn rows(&self) -> (rows: [u8; 8])
        ensures
            rows@ == self@,
    {
        self.rows
    }

    /// One row byte.
    pub fn row(&self, y: u8) -> (row: u8)
        requires
            y < 8,
        ensures
            row == self@[y as int],
    {
        self.rows[y as usize]
    }
}

} // verus!
