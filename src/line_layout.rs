//! Assembly of one shaped line: the style spans handed to the shaper, the
//! recovery of each shaped run's font, and the merging of adjacent runs that
//! share a font.
use crate::font_table::FontId;
use vstd::prelude::*;

verus! {

/// One contiguous span of input text rendered with one font.
#[derive(Clone, Copy, Debug, PartialEq, Eq, Structural)]
pub struct FontRun {
    /// Length of the span in bytes.
    pub len: usize,
    pub font_id: FontId,
}

/// The styling the shaper receives for one font run: its byte range, its
/// font, and whether its size is nudged up by one step of the float format
/// (alternating from run to run, so that the shaper cannot merge neighbouring
/// runs into one ligature cluster).
#[derive(Clone, Copy, Debug, PartialEq, Eq, Structural)]
pub struct StyleSpan {
    pub start: usize,
    pub end: usize,
    pub font_id: FontId,
    pub size_nudged: bool,
}

/// Byte offset at which run `i` starts.
pub open spec fn run_start(runs: Seq<FontRun>, i: int) -> nat
    decreases i,
{
    if i <= 0 {
        0
    } else {
        run_start(runs, i - 1) + runs[i - 1].len as nat
    }
}

/// The style spans of a line, one per font run, in order.
pub fn style_spans(font_runs: &Vec<FontRun>) -> (r: Vec<StyleSpan>)
    requires
        run_start(font_runs@, font_runs@.len() as int) <= usize::MAX,
    ensures
        r@.len() == font_runs@.len(),
        forall|i: int|
            0 <= i < r@.len() ==> {
                &&& #[trigger] r@[i].start == run_start(font_runs@, i)
                &&& r@[i].end == run_start(font_runs@, i + 1)
                &&& r@[i].font_id == font_runs@[i].font_id
                &&& r@[i].size_nudged == (i % 2 == 0)
            },
{
    let mut spans: Vec<StyleSpan> = Vec::new();
    let mut offset: usize = 0;
    let mut nudge = true;
    let mut i: usize = 0;
    while i < font_runs.len()
        invariant
            0 <= i <= font_runs@.len(),
            spans@.len() == i,
            offset == run_start(font_runs@, i as int),
            nudge == (i % 2 == 0),
            run_start(font_runs@, font_runs@.len() as int) <= usize::MAX,
            forall|j: int|
                0 <= j < i ==> {
                    &&& #[trigger] spans@[j].start == run_start(font_runs@, j)
                    &&& spans@[j].end == run_start(font_runs@, j + 1)
                    &&& spans@[j].font_id == font_runs@[j].font_id
                    &&& spans@[j].size_nudged == (j % 2 == 0)
                },
        decreases font_runs.len() - i,
    {
        proof {
            lemma_run_start_monotone(font_runs@, i + 1, font_runs@.len() as int);
        }
        let end = offset + font_runs[i].len;
        let ghost old_spans = spans@;
        spans.push(StyleSpan { start: offset, end, font_id: font_runs[i].font_id, size_nudged: nudge });
        proof {
            assert forall|j: int| 0 <= j < i + 1 implies {
                &&& #[trigger] spans@[j].start == run_start(font_runs@, j)
                &&& spans@[j].end == run_start(font_runs@, j + 1)
                &&& spans@[j].font_id == font_runs@[j].font_id
                &&& spans@[j].size_nudged == (j % 2 == 0)
            } by {
                if j < i {
                    assert(spans@[j] == old_spans[j]);
                }
            }
        }
        offset = end;
        nudge = !nudge;
        i += 1;
    }
    spans
}

proof fn lemma_run_start_monotone(runs: Seq<FontRun>, i: int, j: int)
    requires
        0 <= i <= j,
    ensures
        run_start(runs, i) <= run_start(runs, j),
    decreases j - i,
{
    if i < j {
        lemma_run_start_monotone(runs, i, j - 1);
    }
}

/// Identity of a font's data as the shaper reports it: where its bytes lie,
/// how many there are, and the face index within a collection.
#[derive(Clone, Copy, Debug, PartialEq, Eq, Structural)]
pub struct FontDataKey {
    pub addr: usize,
    pub len: usize,
    pub index: u32,
}

/// Position of the first loaded font whose data is `key`, if any.
pub open spec fn first_font_match(loaded: Seq<FontDataKey>, key: FontDataKey) -> Option<int>
    decreases loaded.len(),
{
    if loaded.len() == 0 {
        None
    } else if loaded.last() == key && first_font_match(loaded.drop_last(), key) is None {
        Some(loaded.len() - 1)
    } else {
        first_font_match(loaded.drop_last(), key)
    }
}

/// The font a shaped run was drawn with: the loaded font whose data the
/// shaper used, else the first requested run's font, else font 0.
pub open spec fn run_font_spec(key: FontDataKey, font_runs: Seq<FontRun>, loaded: Seq<FontDataKey>) -> FontId {
    match first_font_match(loaded, key) {
        Some(i) => FontId(i as usize),
        None => if font_runs.len() > 0 {
            font_runs[0].font_id
        } else {
            FontId(0)
        },
    }
}

/// Recovers the font of a shaped run from the data the shaper used, since the
/// shaper may have substituted a fallback font.
pub fn run_font_id(key: FontDataKey, font_runs: &Vec<FontRun>, loaded: &Vec<FontDataKey>) -> (r: FontId)
    ensures
        r == run_font_spec(key, font_runs@, loaded@),
{
    let mut i: usize = 0;
    while i < loaded.len()
        invariant
            0 <= i <= loaded@.len(),
            first_font_match(loaded@.subrange(0, i as int), key) is None,
        decreases loaded.len() - i,
    {
        proof {
            assert(loaded@.subrange(0, i + 1).drop_last() =~= loaded@.subrange(0, i as int));
        }
        if loaded[i] == key {
            proof {
                lemma_first_match_extends(loaded@, key, i + 1);
            }
            return FontId(i);
        }
        i += 1;
    }
    proof {
        assert(loaded@.subrange(0, loaded@.len() as int) =~= loaded@);
    }
    if font_runs.len() > 0 {
        font_runs[0].font_id
    } else {
        FontId(0)
    }
}

proof fn lemma_first_match_extends(loaded: Seq<FontDataKey>, key: FontDataKey, k: int)
    requires
        0 < k <= loaded.len(),
        first_font_match(loaded.subrange(0, k), key) is Some,
    ensures
        first_font_match(loaded, key) == first_font_match(loaded.subrange(0, k), key),
    decreases loaded.len() - k,
{
    if k < loaded.len() {
        assert(loaded.subrange(0, k + 1).drop_last() =~= loaded.subrange(0, k));
        lemma_first_match_extends(loaded, key, k + 1);
    } else {
        assert(loaded.subrange(0, k) =~= loaded);
    }
}

/// Glyphs of one font, in visual order.
#[derive(Clone, Debug)]
pub struct ShapedRun<G> {
    pub font_id: FontId,
    pub glyphs: Vec<G>,
}

/// All glyphs of a sequence of runs, in order.
pub open spec fn flat_glyphs<G>(runs: Seq<ShapedRun<G>>) -> Seq<G>
    decreases runs.len(),
{
    if runs.len() == 0 {
        seq![]
    } else {
        flat_glyphs(runs.drop_last()) + runs.last().glyphs@
    }
}

/// No two consecutive runs share a font.
pub open spec fn runs_merged<G>(runs: Seq<ShapedRun<G>>) -> bool {
    forall|i: int| 0 < i < runs.len() ==> #[trigger] runs[i].font_id != runs[i - 1].font_id
}

/// The runs of one shaped line and the byte length of its text.
#[derive(Debug)]
pub struct ShapedLine<G> {
    pub runs: Vec<ShapedRun<G>>,
    pub len: usize,
}

impl<G> ShapedLine<G> {
    pub open spec fn well_formed(&self) -> bool {
        runs_merged(self.runs@)
    }

    /// A line of `text` without glyphs yet; also the whole result for empty
    /// text or an empty list of font runs.
    pub fn new(text: &str) -> (r: ShapedLine<G>)
        ensures
            r.well_formed(),
            r.runs@.len() == 0,
            r.len == text.len(),
    {
        ShapedLine { runs: Vec::new(), len: text.len() }
    }

    /// Appends the glyphs of one shaped run in font `font_id`, merging them
    /// into the last run when that run has the same font.
    pub fn push_run(&mut self, font_id: FontId, glyphs: Vec<G>)
        requires
            old(self).well_formed(),
        ensures
            final(self).well_formed(),
            final(self).len == old(self).len,
            flat_glyphs(final(self).runs@) == flat_glyphs(old(self).runs@) + glyphs@,
            final(self).runs@.len() > 0,
            final(self).runs@.last().font_id == font_id,
            ({
                let merged = old(self).runs@.len() > 0 && old(self).runs@.last().font_id == font_id;
                let kept = if merged {
                    old(self).runs@.len() - 1
                } else {
                    old(self).runs@.len() as int
                };
                &&& final(self).runs@.len() == kept + 1
                &&& final(self).runs@.subrange(0, kept) == old(self).runs@.subrange(0, kept)
                &&& final(self).runs@.last().glyphs@ == if merged {
                    old(self).runs@.last().glyphs@ + glyphs@
                } else {
                    glyphs@
                }
            }),
    {
        let ghost old_runs = self.runs@;
        let n = self.runs.len();
        if n > 0 && self.runs[n - 1].font_id == font_id {
            let mut last = self.runs.pop().unwrap();
            let mut moved = glyphs;
            last.glyphs.append(&mut moved);
            self.runs.push(last);
            proof {
                assert(self.runs@.drop_last() =~= old_runs.drop_last());
                assert(self.runs@.subrange(0, n - 1) =~= old_runs.subrange(0, n - 1));
                assert(flat_glyphs(self.runs@) =~= flat_glyphs(old_runs.drop_last()) + (
                old_runs.last().glyphs@ + glyphs@));
                assert(flat_glyphs(old_runs) == flat_glyphs(old_runs.drop_last())
                    + old_runs.last().glyphs@);
                assert forall|i: int| 0 < i < self.runs@.len() implies #[trigger] self.runs@[i].font_id
                    != self.runs@[i - 1].font_id by {
                    if i < n - 1 {
                        assert(self.runs@[i] == old_runs[i]);
                        assert(self.runs@[i - 1] == old_runs[i - 1]);
                    } else {
                        assert(self.runs@[i - 1] == old_runs[i - 1]);
                    }
                }
            }
        } else {
            self.runs.push(ShapedRun { font_id, glyphs });
            proof {
                assert(self.runs@.drop_last() =~= old_runs);
                assert(self.runs@.subrange(0, n as int) =~= old_runs);
                assert forall|i: int| 0 < i < self.runs@.len() implies #[trigger] self.runs@[i].font_id
                    != self.runs@[i - 1].font_id by {
                    if i < n {
                        assert(self.runs@[i] == old_runs[i]);
                        assert(self.runs@[i - 1] == old_runs[i - 1]);
                    } else {
                        assert(self.runs@[i - 1] == old_runs[i - 1]);
                    }
                }
            }
        }
    }
}

/// Whether a line needs shaping at all: empty text or an empty list of font
/// runs gives a line without glyphs.
pub fn needs_shaping(text: &str, font_runs: &Vec<FontRun>) -> (r: bool)
    ensures
        r == (text@.len() > 0 && font_runs@.len() > 0),
{
    !text.is_empty() && font_runs.len() > 0
}

} // verus!
