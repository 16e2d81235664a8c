//! A bitmap font held as plain values: for each character a mask of lit
//! cells, inside a bounding box that is the same for the whole font.

use vstd::prelude::*;

verus! {

/// What a glyph is: a `width` by `height` grid of cells, row by row from the
/// top, `true` where the cell is lit.
pub struct GlyphView {
    pub width: nat,
    pub height: nat,
    pub bits: Seq<bool>,
}

/// The mask of one character.
#[derive(Debug)]
pub struct Glyph {
    width: u32,
    height: u32,
    bits: Vec<bool>,
}

impl View for Glyph {
    type V = GlyphView;

    closed spec fn view(&self) -> GlyphView {
        GlyphView { width: self.width as nat, height: self.height as nat, bits: self.bits@ }
    }
}

impl GlyphView {
    /// A mask has one cell for each position of its grid.
    pub open spec fn wf(self) -> bool {
        self.bits.len() == self.width * self.height
    }
}

impl Glyph {
    #[verifier::type_invariant]
    spec fn inv(self) -> bool {
        self@.wf()
    }

    /// Builds a glyph from its cells, row by row. There is no glyph unless
    /// the number of cells is `width * height`.
    pub fn new(width: u32, height: u32, bits: Vec<bool>) -> (glyph: Option<Glyph>)
        ensures
            glyph is Some <==> bits@.len() == width * height,
            glyph matches Some(g) ==> g@ == (GlyphView {
                width: width as nat,
                height: height as nat,
                bits: bits@,
            }),
    {
        assert(width * height <= 0xffff_ffff * 0xffff_ffff) by (nonlinear_arith)
            requires
                width <= 0xffff_ffff,
                height <= 0xffff_ffff,
        ;
        let cells: u64 = (width as u64) * (height as u64);
        if bits.len() as u64 == cells {
            Some(Glyph { width, height, bits })
        } else {
            None
        }
    }

    /// The number of columns of the mask.
    pub fn width(&self) -> (w: u32)
        ensures
            w == self@.width,
    {
        self.width
    }

    /// The number of rows of the mask.
    pub fn height(&self) -> (h: u32)
        ensures
            h == self@.height,
    {
        self.height
    }

    /// The number of cells of the mask.
    pub fn cells(&self) -> (n: usize)
        ensures
            n == self@.bits.len(),
            self@.wf(),
    {
        proof {
            use_type_invariant(self);
        }
        self.bits.len()
    }

    /// Whether cell `k`, counted row by row, is lit.
    pub fn lit(&self, k: usize) -> (on: bool)
        requires
            k < self@.bits.len(),
        ensures
            on == self@.bits[k as int],
    {
        self.bits[k]
    }
}

/// What a font is: the bounding box of its glyphs and, in order, the
/// characters it has with their masks. Where a character stands twice, the
/// first entry counts.
pub struct FontView {
    pub width: nat,
    pub height: nat,
    pub entries: Seq<(char, GlyphView)>,
}

impl FontView {
    /// Every glyph is a full grid that fits the bounding box.
    pub open spec fn wf(self) -> bool {
        forall|i: int|
            0 <= i < self.entries.len() ==> {
                &&& (#[trigger] self.entries[i]).1.wf()
                &&& self.entries[i].1.width <= self.width
                &&& self.entries[i].1.height <= self.height
            }
    }

    /// The position of the first entry for `c` at or after `from`, or the
    /// number of entries.
    pub open spec fn find(self, c: char, from: nat) -> nat
        decreases self.entries.len() - from,
    {
        if from >= self.entries.len() {
            self.entries.len()
        } else if self.entries[from as int].0 == c {
            from
        } else {
            self.find(c, from + 1)
        }
    }

    /// The glyph of `c`, if the font has one.
    pub open spec fn glyph(self, c: char) -> Option<GlyphView> {
        let at = self.find(c, 0);
        if at < self.entries.len() {
            Some(self.entries[at as int].1)
        } else {
            None
        }
    }
}

/// A bitmap font.
#[derive(Debug)]
pub struct Font {
    width: u32,
    height: u32,
    chars: Vec<char>,
    glyphs: Vec<Glyph>,
}

impl View for Font {
    type V = FontView;

    closed spec fn view(&self) -> FontView {
        FontView {
            width: self.width as nat,
            height: self.height as nat,
            entries: Seq::new(
                self.glyphs.len() as nat,
                |i: int| (self.chars[i], self.glyphs[i]@),
            ),
        }
    }
}

/// The entries of a font that is being put together.
pub open spec fn entry_views(entries: Seq<(char, Glyph)>) -> Seq<(char, GlyphView)> {
    Seq::new(entries.len(), |i: int| (entries[i].0, entries[i].1@))
}

/// Whether every glyph of `entries` fits a box of `width` by `height`.
pub open spec fn all_fit(width: u32, height: u32, entries: Seq<(char, Glyph)>) -> bool {
    forall|i: int|
        0 <= i < entries.len() ==> (#[trigger] entries[i]).1@.width <= width && entries[i].1@.height
            <= height
}

impl Font {
    #[verifier::type_invariant]
    spec fn inv(self) -> bool {
        &&& self.chars.len() == self.glyphs.len()
        &&& self@.wf()
    }

    /// Builds a font from its bounding box and its glyphs. There is no font
    /// where a glyph is wider or taller than the box.
    pub fn new(width: u32, height: u32, entries: Vec<(char, Glyph)>) -> (font: Option<Font>)
        ensures
            font is Some <==> all_fit(width, height, entries@),
            font matches Some(f) ==> f@ == (FontView {
                width: width as nat,
                height: height as nat,
                entries: entry_views(entries@),
            }),
    {
        let mut chars: Vec<char> = Vec::new();
        let mut glyphs: Vec<Glyph> = Vec::new();
        let ghost given = entries@;
        for entry in it: entries
            invariant
                it.seq() == given,
                chars.len() == it.index(),
                glyphs.len() == it.index(),
                forall|k: int| 0 <= k < it.index() ==> #[trigger] chars[k] == given[k].0,
                forall|k: int| 0 <= k < it.index() ==> (#[trigger] glyphs[k])@ == given[k].1@,
                forall|k: int|
                    0 <= k < it.index() ==> (#[trigger] given[k]).1@.width <= width
                        && given[k].1@.height <= height,
                forall|k: int| 0 <= k < it.index() ==> (#[trigger] glyphs[k])@.wf(),
        {
            let (c, glyph) = entry;
            proof {
                use_type_invariant(&glyph);
            }
            if glyph.width() > width || glyph.height() > height {
                return None;
            }
            chars.push(c);
            glyphs.push(glyph);
        }
        let font = Font { width, height, chars, glyphs };
        assert(font@.entries =~= entry_views(given));
        Some(font)
    }

    /// The width of the bounding box.
    pub fn width(&self) -> (w: u32)
        ensures
            w == self@.width,
    {
        self.width
    }

    /// The height of the bounding box.
    pub fn height(&self) -> (h: u32)
        ensures
            h == self@.height,
    {
        self.height
    }

    /// Looks up the glyph of a character. A glyph that is found fits the
    /// font's bounding box.
    pub fn glyph(&self, c: char) -> (found: Option<&Glyph>)
        ensures
            match found {
                Some(g) => {
                    &&& self@.glyph(c) == Some(g@)
                    &&& g@.wf()
                    &&& g@.width <= self@.width
                    &&& g@.height <= self@.height
                },
                None => self@.glyph(c) is None,
            },
    {
        proof {
            use_type_invariant(self);
        }
        let mut i: usize = 0;
        while i < self.chars.len()
            invariant
                i <= self.chars.len(),
                self.chars.len() == self.glyphs.len(),
                self@.entries.len() == self.chars.len(),
                self@.find(c, 0) == self@.find(c, i as nat),
                self@.wf(),
            decreases self.chars.len() - i,
        {
            if self.chars[i] == c {
                assert(self@.entries[i as int].1 == self.glyphs[i as int]@);
                return Some(&self.glyphs[i]);
            }
            i = i + 1;
        }
        None
    }
}

} // verus!
