//! Characters as 8x8 bitmaps: the glyph table, and rendering into
//! framebuffers.

use vstd::prelude::*;
use vstd::string::StrSliceExecFns;
use max7219_display::led_matrix::fonts::FONT8X8;
use crate::chain::Chain;
use crate::framebuffer::{blank_rows, Framebuffer};

verus! {

/// The bitmap of one character: eight row bytes, top row first, column 0 in
/// the most significant bit.
#[derive(Clone, Copy, Debug)]
pub struct Glyph {
    pub ch: char,
    pub rows: [u8; 8],
}

impl View for Glyph {
    type V = (char, Seq<u8>);

    open spec fn view(&self) -> (char, Seq<u8>) {
        (self.ch, self.rows@)
    }
}

/// The rows of the first glyph for `c` in `table`, if there is one.
pub open spec fn glyph_rows(table: Seq<(char, Seq<u8>)>, c: char) -> Option<Seq<u8>>
    decreases table.len(),
{
    if table.len() == 0 {
        None
    } else if table[0].0 == c {
        Some(table[0].1)
    } else {
        glyph_rows(table.skip(1), c)
    }
}

/// What a module shows for `c`: its glyph, or nothing at all where the table
/// has no glyph for it.
pub open spec fn rendered(table: Seq<(char, Seq<u8>)>, c: char) -> Seq<u8> {
    match glyph_rows(table, c) {
        Some(rows) => rows,
        None => blank_rows(),
    }
}

/// The chain after `text` was rendered: module `k` shows character `k` of the
/// text, as far as the text and the chain both reach; the modules behind the
/// end of the text keep what they had.
pub open spec fn rendered_text(
    chain: Seq<Seq<u8>>,
    table: Seq<(char, Seq<u8>)>,
    text: Seq<char>,
) -> Seq<Seq<u8>> {
    Seq::new(
        chain.len(),
        |m: int|
            if m < text.len() {
                rendered(table, text[m])
            } else {
                chain[m]
            },
    )
}

/// The most glyphs that are read from the built-in font.
pub const MAX_GLYPHS: usize = 1024;

/// Entry `index` of the built-in font: the character and its eight rows;
/// `None` from the end of the font on.
pub uninterp spec fn font_entry(index: int) -> Option<(char, Seq<u8>)>;

/// Reads one entry of `max7219_display::led_matrix::fonts::FONT8X8`, a
/// constant slice of bitmap and character pairs.  The contract claims that
/// the entry at an index is always the same, and that there is none exactly
/// where the slice has none.
#[verifier::external_body]
fn builtin_entry(index: usize) -> (r: Option<Glyph>)
    ensures
        r matches Some(g) ==> font_entry(index as int) == Some(g@),
        r is None ==> font_entry(index as int) is None,
{
    match FONT8X8.get(index) {
        Some(entry) => Some(Glyph { ch: entry.1, rows: entry.0 }),
        None => None,
    }
}

/// How many entries of the built-in font are read: those before the first
/// index without an entry, and no more than `limit`.
pub open spec fn font_len(limit: nat) -> nat
    decreases limit,
{
    if limit == 0 {
        0
    } else {
        let before = font_len((limit - 1) as nat);
        if before == limit - 1 && font_entry(limit - 1) is Some {
            limit
        } else {
            before
        }
    }
}

/// The built-in font as a table.
pub open spec fn builtin_table() -> Seq<(char, Seq<u8>)> {
    Seq::new(font_len(MAX_GLYPHS as nat), |i: int| font_entry(i).unwrap())
}

/// A table of glyphs.  Where a character occurs twice, the first glyph
/// counts.
#[derive(Debug)]
pub struct GlyphTable {
    glyphs: Vec<Glyph>,
}

impl View for GlyphTable {
    type V = Seq<(char, Seq<u8>)>;

    /// The characters and their rows, in the table's order.
    closed spec fn view(&self) -> Seq<(char, Seq<u8>)> {
        Seq::new(self.glyphs@.len(), |i: int| self.glyphs@[i]@)
    }
}

impl GlyphTable {
    /// A table of the given glyphs.
    pub fn new(glyphs: Vec<Glyph>) -> (table: GlyphTable)
        ensures
            table@ == Seq::new(glyphs@.len(), |i: int| glyphs@[i]@),
    {
        GlyphTable { glyphs }
    }

    /// The built-in font.
    pub fn builtin() -> (table: GlyphTable)
        ensures
            table@ == builtin_table(),
    {
        let mut glyphs: Vec<Glyph> = Vec::new();
        let mut i: usize = 0;
        while i < MAX_GLYPHS
            invariant
                i <= MAX_GLYPHS,
                glyphs@.len() == i,
                font_len(i as nat) == i,
                forall|k: int| 0 <= k < i ==> font_entry(k) == Some((#[trigger] glyphs@[k])@),
            decreases MAX_GLYPHS - i,
        {
            match builtin_entry(i) {
                Some(glyph) => {
                    glyphs.push(glyph);
                    assert(font_len((i + 1) as nat) == i + 1);
                },
                None => {
                    proof {
                        lemma_font_len_stops(i as nat, MAX_GLYPHS as nat);
                    }
                    let table = GlyphTable { glyphs };
                    assert(table@ =~= builtin_table());
                    return table;
                },
            }
            i += 1;
        }
        let table = GlyphTable { glyphs };
        assert(table@ =~= builtin_table());
        table
    }

    /// The number of glyphs.
    pub fn len(&self) -> (n: usize)
        ensures
            n == self@.len(),
    {
        self.glyphs.len()
    }

    /// The rows of the glyph for `c`; `None` where the table has none.
    pub fn lookup(&self, c: char) -> (r: Option<[u8; 8]>)
        ensures
            r matches Some(rows) ==> glyph_rows(self@, c) == Some(rows@),
            r is None ==> glyph_rows(self@, c) is None,
    {
        let n: usize = self.glyphs.len();
        let mut i: usize = 0;
        assert(self@.skip(0) =~= self@);
        while i < n
            invariant
                i <= n,
                n == self.glyphs@.len(),
                glyph_rows(self@, c) == glyph_rows(self@.skip(i as int), c),
            decreases n - i,
        {
            let glyph: Glyph = self.glyphs[i];
            proof {
                assert(self@.skip(i as int)[0] == glyph@);
                assert(self@.skip(i as int).skip(1) =~= self@.skip((i + 1) as int));
            }
            if glyph.ch == c {
                return Some(glyph.rows);
            }
            i += 1;
        }
        assert(self@.skip(n as int).len() == 0);
        None
    }
}

/// Once an index has no entry, the font ends there whatever the limit.
proof fn lemma_font_len_stops(end: nat, limit: nat)
    requires
        font_len(end) == end,
        font_entry(end as int) is None,
        end <= limit,
    ensures
        font_len(limit) == end,
    decreases limit,
{
    if limit > end {
        lemma_font_len_stops(end, (limit - 1) as nat);
    }
}

/// Shows `c` on one module: the glyph's eight rows replace all that the
/// buffer held; a character without a glyph leaves the buffer blank.
/// Nothing is sent to the hardware.
pub fn render_char(buffer: &mut Framebuffer, table: &GlyphTable, c: char)
    ensures
        final(buffer)@ == rendered(table@, c),
        glyph_rows(table@, c) is None ==> final(buffer)@ == blank_rows(),
{
    match table.lookup(c) {
        Some(rows) => buffer.set_rows(rows),
        None => buffer.clear(),
    }
}

/// Shows `text` on a chain, one character per module from module 0 on.
/// Characters behind the end of the chain are dropped.  Nothing is sent to
/// the hardware.
pub fn render_text(chain: &mut Chain, table: &GlyphTable, text: &str)
    requires
        old(chain).wf(),
    ensures
        final(chain).wf(),
        final(chain)@ == rendered_text(old(chain)@, table@, text@),
{
    let modules: usize = chain.len();
    let chars: usize = text.unicode_len();
    let mut m: usize = 0;
    while m < modules && m < chars
        invariant
            chain.wf(),
            m <= modules,
            m <= chars,
            modules == chain@.len(),
            modules == old(chain)@.len(),
            chars == text@.len(),
            forall|k: int|
                0 <= k < modules ==> #[trigger] chain@[k] == if k < m {
                    rendered(table@, text@[k])
                } else {
                    old(chain)@[k]
                },
        decreases modules - m,
    {
        let mut fb: Framebuffer = Framebuffer::new();
        render_char(&mut fb, table, text.get_char(m));
        let set = chain.set_module(m, fb);
        m += 1;
    }
    assert(chain@ =~= rendered_text(old(chain)@, table@, text@));
}

} // verus!
