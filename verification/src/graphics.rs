//! Shapes and text from the `embedded-graphics` rasterizer, plotted on a
//! surface.

use vstd::prelude::*;
use vstd::string::StrSliceExecFns;
use embedded_graphics::mono_font::ascii::FONT_5X8;
use embedded_graphics::mono_font::MonoTextStyle;
use embedded_graphics::pixelcolor::raw::{LittleEndian, RawU1};
use embedded_graphics::pixelcolor::BinaryColor;
use embedded_graphics::prelude::{Drawable, Point, Primitive};
use embedded_graphics::primitives::{Circle, PrimitiveStyleBuilder};
use embedded_graphics::text::{Alignment, Baseline, Text, TextStyleBuilder};
use crate::chain::MAX_MODULES;
use crate::error::DrawError;
use crate::framebuffer::{column_bit, row_lit};
use crate::surface::{plot_all, plotted_all, Pixel, Surface};

verus! {

/// The rasterizer works in 32 bits and doubles every coordinate: a
/// coordinate `v` of a circle must satisfy `-REACH <= v < REACH`, and
/// `v + diameter <= REACH`.
pub const REACH: i32 = 1_073_741_824;

/// The largest diameter whose squared distances the rasterizer holds in 32
/// bits.
pub const MAX_DIAMETER: u32 = 32_768;

/// The longest text, in characters, of which every instance is within the
/// rasterizer's 32 bits: a line takes 8 rows, and a text of `n` characters
/// has up to `n + 1` lines.
pub const MAX_TEXT: usize = 268_435_454;

/// The bytes of one row of a raster: one for each module of the longest
/// chain.
pub const RASTER_STRIDE: usize = 255;

/// The width of a raster in pixels.
pub const RASTER_WIDTH: usize = 8 * RASTER_STRIDE;

/// The bytes of a raster: eight rows.
pub const RASTER_BYTES: usize = 8 * RASTER_STRIDE;

/// The column on which [`draw_character`] centres its text.
pub const TEXT_CENTRE: i32 = 4;

/// The row at which the text of [`draw_character`] has its top.
pub const TEXT_TOP: i32 = 0;

/// Whether a circle's extent along one axis, from `v` on, is within the
/// rasterizer's arithmetic.
pub open spec fn axis_in_reach(v: int, diameter: int) -> bool {
    -REACH <= v < REACH && v + diameter <= REACH
}

/// Whether the rasterizer computes the circle without overflow.
pub open spec fn circle_in_reach(x: int, y: int, diameter: int) -> bool {
    &&& 0 <= diameter <= MAX_DIAMETER
    &&& axis_in_reach(x, diameter)
    &&& axis_in_reach(y, diameter)
}

/// Whether every pixel is lit and lies in the square of side `diameter`
/// whose top left corner is `(x, y)`.
pub open spec fn outline_within(pixels: Seq<Pixel>, x: int, y: int, diameter: int) -> bool {
    forall|i: int|
        0 <= i < pixels.len() ==> {
            let p = #[trigger] pixels[i];
            p.on && x <= p.x < x + diameter && y <= p.y < y + diameter
        }
}

/// The byte of a raster for row `y` of module `m`; zero where the raster
/// has no such byte.
pub open spec fn raster_byte(raster: Seq<u8>, m: int, y: int) -> u8 {
    if 0 <= m < RASTER_STRIDE && 0 <= y < 8 && RASTER_STRIDE * y + m < raster.len() {
        raster[RASTER_STRIDE * y + m]
    } else {
        0u8
    }
}

/// The leftmost column of a line of `chars` characters, five columns each,
/// that is centred on column `x`.
pub open spec fn line_left(x: int, chars: nat) -> int {
    x - (5 * chars - 1) / 2
}

/// Whether a raster is lit only where a line of `chars` characters is that
/// is centred on column `x` with its top at row `y`: in the `5 * chars`
/// columns from [`line_left`] on, and in the eight rows from `y` on.
pub open spec fn line_within(raster: Seq<u8>, chars: nat, x: int, y: int) -> bool {
    forall|m: int, row: int, c: u8|
        #![trigger row_lit(raster_byte(raster, m, row), c)]
        0 <= m < RASTER_STRIDE && 0 <= row < 8 && c < 8 && row_lit(raster_byte(raster, m, row), c)
            ==> line_left(x, chars) <= 8 * m + c < line_left(x, chars) + 5 * chars && y <= row < y
            + 8
}

/// The pixels of the outline, one pixel thick, of the circle of the given
/// diameter whose bounding square has its top left corner at `(x, y)`, in
/// the order in which the rasterizer yields them.
pub uninterp spec fn circle_outline(x: int, y: int, diameter: int) -> Seq<Pixel>;

/// The raster in which `text` was drawn in the 5x8 font, lit pixels only,
/// every line centred on column `x`, the first with its top at row `y`:
/// [`RASTER_STRIDE`] bytes per row, top row first; in a byte, the leftmost
/// pixel is the most significant bit.
pub uninterp spec fn text_raster(text: Seq<char>, x: int, y: int) -> Seq<u8>;

/// Collects `Styled::pixels` of `embedded_graphics::primitives::Circle` with
/// a stroke of width 1 in `BinaryColor::On`.  The contract claims that the
/// pixels depend on the position and the diameter alone, that each of them
/// is lit, and that each lies in the circle's bounding square: the
/// rasterizer walks the rows and columns of that square and yields the
/// stroke colour.  The bounds are those within which its 32-bit arithmetic
/// does not overflow.
#[verifier::external_body]
fn rasterize_circle(x: i32, y: i32, diameter: u32) -> (pixels: Vec<Pixel>)
    requires
        circle_in_reach(x as int, y as int, diameter as int),
    ensures
        pixels@ == circle_outline(x as int, y as int, diameter as int),
        outline_within(pixels@, x as int, y as int, diameter as int),
{
    let style = PrimitiveStyleBuilder::new().stroke_color(BinaryColor::On).stroke_width(1).build();
    Circle::new(Point::new(x, y), diameter)
        .into_styled(style)
        .pixels()
        .map(|p| Pixel { x: p.0.x, y: p.0.y, on: p.1.is_on() })
        .collect()
}

/// Draws `embedded_graphics::text::Text` in `FONT_5X8`, `BinaryColor::On`,
/// centred and with the baseline at the top, into an
/// `embedded_graphics::framebuffer::Framebuffer` of [`RASTER_WIDTH`] by 8
/// pixels of one bit, and hands out that framebuffer's bytes.  The contract
/// claims that they depend on the text and the position alone; that there
/// are [`RASTER_BYTES`] of them; and that a text of one line lights only the
/// columns and rows of that line, since every character is drawn as a cell
/// of 5 by 8 and only its lit pixels are handed on.  The bounds are those
/// within which the rasterizer's 32-bit arithmetic does not overflow.
#[verifier::external_body]
fn rasterize_text(text: &str, x: i32, y: i32) -> (raster: Vec<u8>)
    requires
        text@.len() <= MAX_TEXT,
        -REACH <= x <= REACH,
        -REACH <= y <= 0,
    ensures
        raster@ == text_raster(text@, x as int, y as int),
        raster@.len() == RASTER_BYTES,
        !text@.contains('\n') ==> line_within(raster@, text@.len(), x as int, y as int),
{
    let mut target = embedded_graphics::framebuffer::Framebuffer::<
        BinaryColor,
        RawU1,
        LittleEndian,
        RASTER_WIDTH,
        8,
        RASTER_BYTES,
    >::new();
    let layout = TextStyleBuilder::new().alignment(Alignment::Center).baseline(Baseline::Top).build();
    let style = MonoTextStyle::new(&FONT_5X8, BinaryColor::On);
    let _ = Text::with_text_style(text, Point::new(x, y), style, layout).draw(&mut target);
    target.data().to_vec()
}

/// The canvas after the lit pixels of a raster were plotted on it: every
/// row gains the bits of its raster byte and loses none.
pub open spec fn overlaid(canvas: Seq<Seq<u8>>, raster: Seq<u8>) -> Seq<Seq<u8>> {
    Seq::new(
        canvas.len(),
        |m: int| Seq::new(8, |y: int| canvas[m][y] | raster_byte(raster, m, y)),
    )
}

/// The canvas after the raster's rows before row `k` were overlaid, counting
/// the rows module by module.
pub open spec fn overlaid_before(canvas: Seq<Seq<u8>>, raster: Seq<u8>, k: int) -> Seq<Seq<u8>> {
    Seq::new(
        canvas.len(),
        |m: int|
            Seq::new(
                8,
                |y: int|
                    if 8 * m + y < k {
                        canvas[m][y] | raster_byte(raster, m, y)
                    } else {
                        canvas[m][y]
                    },
            ),
    )
}

/// Plots the lit pixels of `bits` in row `y` of module `m`.
fn plot_row<S: Surface>(surface: &mut S, m: usize, y: u8, bits: u8)
    requires
        old(surface).usable(),
        m < old(surface).canvas().len(),
        y < 8,
    ensures
        final(surface).usable(),
        final(surface).beyond() == old(surface).beyond(),
        final(surface).canvas() == old(surface).canvas().update(
            m as int,
            old(surface).canvas()[m as int].update(
                y as int,
                old(surface).canvas()[m as int][y as int] | bits,
            ),
        ),
{
    let n: usize = surface.modules();
    let ghost before = old(surface).canvas();
    let ghost row: u8 = before[m as int][y as int];
    let mut x: u8 = 0;
    let mut done: u8 = 0;
    proof {
        assert(row | (bits & 0u8) == row) by (bit_vector);
        assert(!(0xFFu8 >> 0u8) == 0u8) by (bit_vector);
        assert(before[m as int].update(y as int, row) =~= before[m as int]);
        assert(before =~= before.update(m as int, before[m as int].update(y as int, row)));
    }
    while x < 8
        invariant
            x <= 8,
            n == before.len(),
            m < n <= MAX_MODULES,
            y < 8,
            before == old(surface).canvas(),
            row == before[m as int][y as int],
            before[m as int].len() == 8,
            surface.usable(),
            surface.beyond() == old(surface).beyond(),
            x < 8 ==> done == !(0xFFu8 >> x),
            x == 8 ==> done == 0xFFu8,
            surface.canvas() == before.update(
                m as int,
                before[m as int].update(y as int, row | (bits & done)),
            ),
        decreases 8 - x,
    {
        let bit: u8 = 0x80u8 >> x;
        let ghost step: u8 = done | bit;
        proof {
            assert(x < 7 ==> (!(0xFFu8 >> x)) | (0x80u8 >> x) == !(0xFFu8 >> ((x + 1) as u8)))
                by (bit_vector)
                requires
                    x < 8,
            ;
            assert(x == 7 ==> (!(0xFFu8 >> x)) | (0x80u8 >> x) == 0xFFu8) by (bit_vector);
            assert(bits & bit != 0 ==> (row | (bits & done)) | bit == row | (bits & (done | bit)))
                by (bit_vector)
                requires
                    bit == 0x80u8 >> x,
                    x < 8,
            ;
            assert(bits & bit == 0 ==> row | (bits & done) == row | (bits & (done | bit)))
                by (bit_vector)
                requires
                    bit == 0x80u8 >> x,
                    x < 8,
            ;
        }
        if bits & bit != 0 {
            let gx: i32 = (8 * m + x as usize) as i32;
            let ghost held = surface.canvas();
            surface.plot(gx, y as i32, true);
            proof {
                assert(gx as int / 8 == m && gx as int % 8 == x);
                assert(held[m as int][y as int] == row | (bits & done));
                assert(column_bit(x) == bit);
                assert(surface.canvas()[m as int] =~= before[m as int].update(
                    y as int,
                    row | (bits & step),
                ));
                assert(surface.canvas() =~= before.update(
                    m as int,
                    before[m as int].update(y as int, row | (bits & step)),
                ));
            }
        }
        done = done | bit;
        x += 1;
    }
    proof {
        assert(bits & 0xFFu8 == bits) by (bit_vector);
    }
}

/// Plots the lit pixels of a raster: bit `7 - x` of byte
/// `RASTER_STRIDE * y + m` is the pixel in column `x` of row `y` of module
/// `m`.  Pixels that are not
/// lit, and bytes of modules that the surface does not have, are left
/// alone.
pub fn plot_raster<S: Surface>(surface: &mut S, raster: &Vec<u8>)
    requires
        old(surface).usable(),
    ensures
        final(surface).usable(),
        final(surface).canvas() == overlaid(old(surface).canvas(), raster@),
        final(surface).beyond() == old(surface).beyond(),
{
    let n: usize = surface.modules();
    let ghost before = old(surface).canvas();
    let mut m: usize = 0;
    assert(surface.canvas() =~~= overlaid_before(before, raster@, 0));
    while m < n
        invariant
            m <= n <= MAX_MODULES,
            n == before.len(),
            before == old(surface).canvas(),
            forall|k: int| 0 <= k < n ==> (#[trigger] before[k]).len() == 8,
            surface.usable(),
            surface.beyond() == old(surface).beyond(),
            surface.canvas() == overlaid_before(before, raster@, 8 * m),
        decreases n - m,
    {
        let mut y: u8 = 0;
        while y < 8
            invariant
                y <= 8,
                m < n <= MAX_MODULES,
                n == before.len(),
                before == old(surface).canvas(),
                forall|k: int| 0 <= k < n ==> (#[trigger] before[k]).len() == 8,
                surface.usable(),
                surface.beyond() == old(surface).beyond(),
                surface.canvas() == overlaid_before(before, raster@, 8 * m + y),
            decreases 8 - y,
        {
            let at: usize = RASTER_STRIDE * (y as usize) + m;
            let bits: u8 = if at < raster.len() {
                raster[at]
            } else {
                0
            };
            plot_row(surface, m, y, bits);
            assert(surface.canvas() =~~= overlaid_before(before, raster@, 8 * m + y + 1));
            y += 1;
        }
        m += 1;
    }
    assert(surface.canvas() =~~= overlaid(before, raster@));
}

/// Draws the outline, one pixel thick, of the circle of the given diameter
/// whose bounding square has its top left corner at `(x, y)`: the pixels
/// that the rasterizer yields for it are plotted in its order, and those off
/// the canvas are dropped.  All of them are lit and lie in the bounding
/// square.  Nothing but the canvas changes.
///
/// Every circle that the rasterizer computes in its 32 bits is drawn; one
/// beyond them is refused and nothing is plotted.
pub fn draw_circle<S: Surface>(surface: &mut S, x: i32, y: i32, diameter: u32) -> (r: Result<
    (),
    DrawError,
>)
    requires
        old(surface).usable(),
    ensures
        final(surface).usable(),
        final(surface).beyond() == old(surface).beyond(),
        r is Ok <==> circle_in_reach(x as int, y as int, diameter as int),
        r is Ok ==> final(surface).canvas() == plotted_all(
            old(surface).canvas(),
            circle_outline(x as int, y as int, diameter as int),
        ),
        r is Ok ==> outline_within(
            circle_outline(x as int, y as int, diameter as int),
            x as int,
            y as int,
            diameter as int,
        ),
        r matches Err(e) ==> e == DrawError::OutOfReach && final(surface).canvas() == old(
            surface,
        ).canvas(),
{
    if diameter > MAX_DIAMETER || x < -REACH || x >= REACH || y < -REACH || y >= REACH {
        return Err(DrawError::OutOfReach);
    }
    let side: i32 = diameter as i32;
    if x + side > REACH || y + side > REACH {
        return Err(DrawError::OutOfReach);
    }
    let pixels: Vec<Pixel> = rasterize_circle(x, y, diameter);
    plot_all(surface, &pixels);
    Ok(())
}

/// Draws `text` in the 5x8 font, every line centred on column
/// [`TEXT_CENTRE`], the first with its top at row [`TEXT_TOP`]: the lit
/// pixels of the rasterizer's raster are plotted, and nothing is switched
/// off.  A text of one line lights only the columns of that line.  Nothing
/// but the canvas changes.
///
/// A text of more than [`MAX_TEXT`] characters is refused and nothing is
/// plotted.
pub fn draw_character<S: Surface>(surface: &mut S, text: &str) -> (r: Result<(), DrawError>)
    requires
        old(surface).usable(),
    ensures
        final(surface).usable(),
        final(surface).beyond() == old(surface).beyond(),
        r is Ok <==> text@.len() <= MAX_TEXT,
        r is Ok ==> final(surface).canvas() == overlaid(
            old(surface).canvas(),
            text_raster(text@, TEXT_CENTRE as int, TEXT_TOP as int),
        ),
        r is Ok && !text@.contains('\n') ==> line_within(
            text_raster(text@, TEXT_CENTRE as int, TEXT_TOP as int),
            text@.len(),
            TEXT_CENTRE as int,
            TEXT_TOP as int,
        ),
        r matches Err(e) ==> e == DrawError::TextTooLong && final(surface).canvas() == old(
            surface,
        ).canvas(),
{
    if text.unicode_len() > MAX_TEXT {
        return Err(DrawError::TextTooLong);
    }
    let raster: Vec<u8> = rasterize_text(text, TEXT_CENTRE, TEXT_TOP);
    plot_raster(surface, &raster);
    Ok(())
}

} // verus!
