//! The drawing surface: the one capability, "plot a pixel", that a single
//! module, a chain and a device all offer to whatever rasterizes shapes.

use vstd::prelude::*;
use crate::chain::{canvas_pixel, on_canvas, plotted, valid_chain, Chain};
use crate::device::{Device, Hardware};
use crate::framebuffer::{lemma_row_with, Framebuffer};
use crate::transfer::Transport;

verus! {

/// One pixel to plot: a canvas coordinate and whether it is lit.
#[derive(Clone, Copy, Debug, PartialEq, Eq, Structural)]
pub struct Pixel {
    pub x: i32,
    pub y: i32,
    pub on: bool,
}

/// The canvas after the pixels were plotted in order.
pub open spec fn plotted_all(canvas: Seq<Seq<u8>>, pixels: Seq<Pixel>) -> Seq<Seq<u8>>
    decreases pixels.len(),
{
    if pixels.len() == 0 {
        canvas
    } else {
        let rest = plotted_all(canvas, pixels.drop_last());
        plotted(rest, pixels.last().x as int, pixels.last().y as int, pixels.last().on)
    }
}

/// Something pixels can be plotted on.  The canvas is the row of modules
/// behind it, 8 pixels high and 8 pixels wide per module.  Plotting changes
/// framebuffers only; it never uses the bus.
pub trait Surface {
    /// What the surface holds besides its canvas.
    type Beyond;

    /// The rows of every module of the canvas, leftmost module first.
    spec fn canvas(&self) -> Seq<Seq<u8>>;

    /// All that the surface holds besides its canvas; plotting leaves it as
    /// it is.
    spec fn beyond(&self) -> Self::Beyond;

    /// The surface's invariant.
    spec fn usable(&self) -> bool;

    /// The number of modules of the canvas.
    fn modules(&self) -> (n: usize)
        requires
            self.usable(),
        ensures
            n == self.canvas().len(),
            valid_chain(self.canvas()),
    ;

    /// Writes one pixel; a coordinate off the canvas is dropped.
    fn plot(&mut self, gx: i32, gy: i32, on: bool)
        requires
            old(self).usable(),
        ensures
            final(self).usable(),
            final(self).canvas() == plotted(old(self).canvas(), gx as int, gy as int, on),
            final(self).beyond() == old(self).beyond(),
    ;
}

/// A single module is a canvas of 8 by 8, and nothing besides.
impl Surface for Framebuffer {
    type Beyond = ();

    open spec fn canvas(&self) -> Seq<Seq<u8>> {
        seq![self@]
    }

    open spec fn beyond(&self) -> () {
        ()
    }

    open spec fn usable(&self) -> bool {
        true
    }

    fn modules(&self) -> (n: usize) {
        1
    }

    fn plot(&mut self, gx: i32, gy: i32, on: bool) {
        if 0 <= gx && gx < 8 && 0 <= gy && gy < 8 {
            self.set_pixel(gx as u8, gy as u8, on);
        }
        assert(self.canvas() =~= plotted(old(self).canvas(), gx as int, gy as int, on));
    }
}

/// A chain of `n` modules is a canvas of `8 * n` by 8, and nothing besides.
impl Surface for Chain {
    type Beyond = ();

    open spec fn canvas(&self) -> Seq<Seq<u8>> {
        self@
    }

    open spec fn beyond(&self) -> () {
        ()
    }

    open spec fn usable(&self) -> bool {
        self.wf()
    }

    fn modules(&self) -> (n: usize) {
        self.len()
    }

    fn plot(&mut self, gx: i32, gy: i32, on: bool) {
        Chain::plot(self, gx, gy, on)
    }
}

/// A device is the canvas of its chain; besides it holds the transport, the
/// record of the frames built for it, and what is known of the chips.
impl<T: Transport> Surface for Device<T> {
    type Beyond = Hardware<T>;

    open spec fn canvas(&self) -> Seq<Seq<u8>> {
        self.buffers()
    }

    open spec fn beyond(&self) -> Hardware<T> {
        self.hardware()
    }

    open spec fn usable(&self) -> bool {
        self.wf()
    }

    fn modules(&self) -> (n: usize) {
        proof {
            self.lemma_shape();
        }
        self.len()
    }

    fn plot(&mut self, gx: i32, gy: i32, on: bool) {
        Device::plot(self, gx, gy, on)
    }
}

/// Plots the pixels in order.
pub fn plot_all<S: Surface>(surface: &mut S, pixels: &Vec<Pixel>)
    requires
        old(surface).usable(),
    ensures
        final(surface).usable(),
        final(surface).canvas() == plotted_all(old(surface).canvas(), pixels@),
        final(surface).beyond() == old(surface).beyond(),
{
    let n: usize = pixels.len();
    let mut i: usize = 0;
    while i < n
        invariant
            i <= n,
            n == pixels@.len(),
            surface.usable(),
            surface.beyond() == old(surface).beyond(),
            surface.canvas() == plotted_all(old(surface).canvas(), pixels@.take(i as int)),
        decreases n - i,
    {
        let p: Pixel = pixels[i];
        proof {
            assert(pixels@.take(i as int + 1).drop_last() =~= pixels@.take(i as int));
        }
        surface.plot(p.x, p.y, p.on);
        i += 1;
    }
    assert(pixels@.take(n as int) =~= pixels@);
}

/// A plot on the canvas is read back as it was written; a plot off the
/// canvas changes nothing.
pub proof fn lemma_plot_then_read(canvas: Seq<Seq<u8>>, gx: int, gy: int, on: bool)
    requires
        valid_chain(canvas),
    ensures
        on_canvas(canvas.len(), gx, gy) ==> canvas_pixel(plotted(canvas, gx, gy, on), gx, gy)
            == Some(on),
        !on_canvas(canvas.len(), gx, gy) ==> plotted(canvas, gx, gy, on) == canvas,
        valid_chain(plotted(canvas, gx, gy, on)),
{
    if on_canvas(canvas.len(), gx, gy) {
        lemma_row_with(canvas[gx / 8][gy], (gx % 8) as u8, on, (gx % 8) as u8);
    }
}

/// A plot changes one pixel: every other module keeps its rows, and every
/// other pixel of the canvas reads as before.
pub proof fn lemma_plot_touches_one_pixel(
    canvas: Seq<Seq<u8>>,
    gx: int,
    gy: int,
    on: bool,
    m: int,
    x: int,
    y: int,
)
    requires
        valid_chain(canvas),
        on_canvas(canvas.len(), gx, gy),
        on_canvas(canvas.len(), x, y),
        0 <= m < canvas.len(),
    ensures
        m != gx / 8 ==> plotted(canvas, gx, gy, on)[m] == canvas[m],
        (x != gx || y != gy) ==> canvas_pixel(plotted(canvas, gx, gy, on), x, y) == canvas_pixel(
            canvas,
            x,
            y,
        ),
{
    if x / 8 == gx / 8 && y == gy && x != gx {
        lemma_row_with(canvas[gx / 8][gy], (gx % 8) as u8, on, (x % 8) as u8);
    }
}

} // verus!
