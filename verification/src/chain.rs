//! A row of modules, and the wide canvas they form side by side.

use vstd::prelude::*;
use crate::error::ConfigError;
use crate::framebuffer::{blank_rows, lit, rows_with, Framebuffer};

verus! {

/// The longest chain that is supported.
pub const MAX_MODULES: usize = 255;

/// What a chain may look like: between 1 and [`MAX_MODULES`] modules of
/// eight rows each.
pub open spec fn valid_chain(chain: Seq<Seq<u8>>) -> bool {
    &&& 1 <= chain.len() <= MAX_MODULES
    &&& forall|m: int| 0 <= m < chain.len() ==> (#[trigger] chain[m]).len() == 8
}

/// A chain of `n` modules with nothing lit.
pub open spec fn blank_chain(n: nat) -> Seq<Seq<u8>> {
    Seq::new(n, |m: int| blank_rows())
}

/// Whether `(gx, gy)` lies on the canvas of `n` modules side by side, which
/// is `8 * n` pixels wide and 8 high.
pub open spec fn on_canvas(n: nat, gx: int, gy: int) -> bool {
    0 <= gx < 8 * n && 0 <= gy < 8
}

/// The chain after a plot at `(gx, gy)`: on the canvas, the pixel in column
/// `gx % 8` of row `gy` of module `gx / 8` is written; off the canvas, nothing
/// changes.
pub open spec fn plotted(chain: Seq<Seq<u8>>, gx: int, gy: int, on: bool) -> Seq<Seq<u8>> {
    if on_canvas(chain.len(), gx, gy) {
        chain.update(gx / 8, rows_with(chain[gx / 8], (gx % 8) as u8, gy as u8, on))
    } else {
        chain
    }
}

/// The pixel at `(gx, gy)` of the canvas; `None` off the canvas.
pub open spec fn canvas_pixel(chain: Seq<Seq<u8>>, gx: int, gy: int) -> Option<bool> {
    if on_canvas(chain.len(), gx, gy) {
        Some(lit(chain[gx / 8], (gx % 8) as u8, gy as u8))
    } else {
        None
    }
}

/// Where a canvas coordinate falls: module, column and row.
#[derive(Clone, Copy, Debug, PartialEq, Eq, Structural)]
pub struct Place {
    pub module: usize,
    pub x: u8,
    pub y: u8,
}

/// Maps a canvas coordinate to its module and the coordinate inside it.
/// Off the canvas there is no place.
pub fn locate(modules: usize, gx: i32, gy: i32) -> (place: Option<Place>)
    ensures
        place is Some <==> on_canvas(modules as nat, gx as int, gy as int),
        place matches Some(p) ==> p.module == gx / 8 && p.x == gx % 8 && p.y == gy && p.module
            < modules && p.x < 8 && p.y < 8,
{
    if gx < 0 || gy < 0 || gy >= 8 {
        return None;
    }
    let module: usize = (gx / 8) as usize;
    if module >= modules {
        return None;
    }
    Some(Place { module, x: (gx % 8) as u8, y: gy as u8 })
}

/// The framebuffers of a chain, module 0 first.  The number of modules is
/// fixed when the chain is made.
#[derive(Debug)]
pub struct Chain {
    modules: Vec<Framebuffer>,
}

impl View for Chain {
    type V = Seq<Seq<u8>>;

    /// The rows of every module, module 0 first.
    closed spec fn view(&self) -> Seq<Seq<u8>> {
        Seq::new(self.modules@.len(), |m: int| self.modules@[m]@)
    }
}

impl Chain {
    /// The invariant of every chain this module hands out.
    pub open spec fn wf(&self) -> bool {
        valid_chain(self@)
    }

    /// A chain of `n` blank modules; refused unless `1 <= n <= MAX_MODULES`.
    pub fn new(n: usize) -> (r: Result<Chain, ConfigError>)
        ensures
            r is Ok <==> 1 <= n <= MAX_MODULES,
            r matches Ok(chain) ==> chain.wf() && chain@ == blank_chain(n as nat),
            r matches Err(e) ==> e == ConfigError::InvalidChainLength,
    {
        if n == 0 || n > MAX_MODULES {
            return Err(ConfigError::InvalidChainLength);
        }
        let mut modules: Vec<Framebuffer> = Vec::new();
        let mut m: usize = 0;
        while m < n
            invariant
                m <= n,
                modules@.len() == m,
                forall|k: int| 0 <= k < m ==> (#[trigger] modules@[k])@ == blank_rows(),
            decreases n - m,
        {
            modules.push(Framebuffer::new());
            m += 1;
        }
        let chain = Chain { modules };
        assert(chain@ =~= blank_chain(n as nat));
        Ok(chain)
    }

    /// The number of modules.
    pub fn len(&self) -> (n: usize)
        requires
            self.wf(),
        ensures
            n == self@.len(),
            1 <= n <= MAX_MODULES,
    {
        self.modules.len()
    }

    /// A copy of one module's framebuffer.
    pub fn module(&self, index: usize) -> (r: Result<Framebuffer, ConfigError>)
        requires
            self.wf(),
        ensures
            r is Ok <==> index < self@.len(),
            r matches Ok(fb) ==> fb@ == self@[index as int],
            r matches Err(e) ==> e == ConfigError::InvalidModule,
    {
        if index >= self.modules.len() {
            return Err(ConfigError::InvalidModule);
        }
        Ok(self.modules[index])
    }

    /// Replaces one module's framebuffer; the others stay as they are.
    pub fn set_module(&mut self, index: usize, fb: Framebuffer) -> (r: Result<(), ConfigError>)
        requires
            old(self).wf(),
        ensures
            final(self).wf(),
            r is Ok <==> index < old(self)@.len(),
            r is Ok ==> final(self)@ == old(self)@.update(index as int, fb@),
            r matches Err(e) ==> e == ConfigError::InvalidModule && final(self)@ == old(self)@,
    {
        if index >= self.modules.len() {
            return Err(ConfigError::InvalidModule);
        }
        self.modules[index] = fb;
        assert(self@ =~= old(self)@.update(index as int, fb@));
        Ok(())
    }

    /// Switches every pixel of one module off.  Nothing is sent to the
    /// hardware.
    pub fn clear(&mut self, index: usize) -> (r: Result<(), ConfigError>)
        requires
            old(self).wf(),
        ensures
            final(self).wf(),
            r is Ok <==> index < old(self)@.len(),
            r is Ok ==> final(self)@ == old(self)@.update(index as int, blank_rows()),
            r matches Err(e) ==> e == ConfigError::InvalidModule && final(self)@ == old(self)@,
    {
        self.set_module(index, Framebuffer::new())
    }

    /// Switches every pixel of every module off.  Nothing is sent to the
    /// hardware.
    pub fn clear_all(&mut self)
        requires
            old(self).wf(),
        ensures
            final(self).wf(),
            final(self)@ == blank_chain(old(self)@.len()),
    {
        let n: usize = self.modules.len();
        let mut m: usize = 0;
        while m < n
            invariant
                m <= n,
                n == self.modules@.len(),
                n == old(self).modules@.len(),
                forall|k: int| 0 <= k < m ==> (#[trigger] self.modules@[k])@ == blank_rows(),
            decreases n - m,
        {
            self.modules[m] = Framebuffer::new();
            m += 1;
        }
        assert(self@ =~= blank_chain(old(self)@.len()));
    }

    /// Writes the pixel at `(gx, gy)` of the canvas.  A coordinate off the
    /// canvas is dropped without an error.  Nothing is sent to the hardware.
    pub fn plot(&mut self, gx: i32, gy: i32, on: bool)
        requires
            old(self).wf(),
        ensures
            final(self).wf(),
            final(self)@ == plotted(old(self)@, gx as int, gy as int, on),
    {
        match locate(self.modules.len(), gx, gy) {
            Some(place) => {
                let mut fb: Framebuffer = self.modules[place.module];
                fb.set_pixel(place.x, place.y, on);
                self.modules[place.module] = fb;
                assert(self@ =~= plotted(old(self)@, gx as int, gy as int, on));
            },
            None => {},
        }
    }

    /// Reads the pixel at `(gx, gy)` of the canvas; `None` off the canvas.
    pub fn pixel_at(&self, gx: i32, gy: i32) -> (r: Option<bool>)
        requires
            self.wf(),
        ensures
            r == canvas_pixel(self@, gx as int, gy as int),
    {
        match locate(self.modules.len(), gx, gy) {
            Some(place) => Some(self.modules[place.module].get_pixel(place.x, place.y)),
            None => None,
        }
    }
}

} // verus!
