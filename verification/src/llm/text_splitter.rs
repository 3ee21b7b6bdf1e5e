//! Splitting oversized text into overlapping chunks at natural boundaries,
//! and reassembling the translated chunks.
//!
//! All indexing is by whole characters, so no chunk boundary can fall inside
//! a multi-byte code point. Each chunk after the first starts `overlap_size`
//! characters before the point where the previous chunk ended, to give the
//! translator cross-boundary context; `merge_translations` strips that
//! overlap again (a character-count heuristic, since translation does not
//! preserve character counts).

use vstd::prelude::*;

use crate::chars::chars_substring;
use crate::chars::chars_to_string;
use crate::chars::is_whitespace_char;
use crate::chars::spec_is_whitespace;
use crate::chars::str_to_chars;

verus! {

/// One piece of the source text, as `split_for_translation` produces it.
pub struct TranslationChunk {
    pub index: usize,
    pub text: String,
    pub is_continuation: bool,
    pub overlap_start: usize,
}

/// One translated piece, handed back for reassembly.
pub struct TranslatedChunk {
    pub index: usize,
    pub translated_text: String,
    pub overlap_start: usize,
}

/// The boundary classes that `find_split_point` searches for, in priority
/// order: sentence end, paragraph break, soft punctuation, word boundary.
#[derive(Clone, Copy)]
pub enum CutKind {
    Sentence,
    Paragraph,
    Soft,
    Word,
}

/// Sentence-terminating characters.
pub open spec fn is_sentence_end(c: char) -> bool {
    c == '.' || c == '!' || c == '?' || c == '\u{3002}' || c == '\u{ff01}' || c == '\u{ff1f}'
}

/// Soft punctuation that still makes an acceptable boundary.
pub open spec fn is_soft_boundary(c: char) -> bool {
    c == ',' || c == ';' || c == ':' || c == '\u{3001}' || c == '\u{ff1b}' || c == '\u{ff1a}'
}

/// Position `i` of `s` is a boundary of kind `k`: the cut falls just after
/// `s[i - 1]` (and, for sentence and word cuts, before whitespace).
pub open spec fn is_cut(s: Seq<char>, i: int, k: CutKind) -> bool {
    &&& 0 < i <= s.len()
    &&& match k {
        CutKind::Sentence => is_sentence_end(s[i - 1]) && (i == s.len() || spec_is_whitespace(
            s[i],
        )),
        CutKind::Paragraph => s[i - 1] == '\n',
        CutKind::Soft => is_soft_boundary(s[i - 1]),
        CutKind::Word => i < s.len() && spec_is_whitespace(s[i]) && !spec_is_whitespace(s[i - 1]),
    }
}

/// The largest position in `(lo, i]` that is a cut of kind `k`, if any.
pub open spec fn latest_cut(s: Seq<char>, lo: int, i: int, k: CutKind) -> Option<int>
    decreases i - lo,
{
    if i <= lo {
        None
    } else if is_cut(s, i, k) {
        Some(i)
    } else {
        latest_cut(s, lo, i - 1, k)
    }
}

/// What `find_split_point` returns on the window `(lo, hi]`: the latest cut
/// of the highest-priority kind that occurs there.
pub open spec fn spec_find_split(s: Seq<char>, lo: int, hi: int) -> Option<int> {
    if latest_cut(s, lo, hi, CutKind::Sentence) is Some {
        latest_cut(s, lo, hi, CutKind::Sentence)
    } else if latest_cut(s, lo, hi, CutKind::Paragraph) is Some {
        latest_cut(s, lo, hi, CutKind::Paragraph)
    } else if latest_cut(s, lo, hi, CutKind::Soft) is Some {
        latest_cut(s, lo, hi, CutKind::Soft)
    } else {
        latest_cut(s, lo, hi, CutKind::Word)
    }
}

proof fn lemma_latest_cut_in_window(s: Seq<char>, lo: int, i: int, k: CutKind)
    ensures
        latest_cut(s, lo, i, k) matches Some(j) ==> lo < j <= i && is_cut(s, j, k),
    decreases i - lo,
{
    if i <= lo {
    } else if is_cut(s, i, k) {
    } else {
        lemma_latest_cut_in_window(s, lo, i - 1, k);
    }
}

proof fn lemma_latest_cut_skip(s: Seq<char>, lo: int, i: int, hi: int, k: CutKind)
    requires
        lo <= i <= hi,
        forall|j: int| i < j <= hi ==> !is_cut(s, j, k),
    ensures
        latest_cut(s, lo, hi, k) == latest_cut(s, lo, i, k),
    decreases hi - i,
{
    if i < hi {
        assert(!is_cut(s, hi, k));
        lemma_latest_cut_skip(s, lo, i, hi - 1, k);
    }
}

/// The naive cut for a chunk beginning at `pos`: `max` characters onward,
/// clamped to the end of the text.
pub open spec fn naive_end(s: Seq<char>, pos: int, max: int) -> int {
    if pos + max < s.len() {
        pos + max
    } else {
        s.len() as int
    }
}

/// Where the chunk that begins at `pos` ends: the boundary that
/// `find_split_point` picks below the naive cut, or the naive cut itself.
pub open spec fn next_end(s: Seq<char>, pos: int, max: int) -> int {
    let naive = naive_end(s, pos, max);
    if naive < s.len() {
        match spec_find_split(s, pos, naive) {
            Some(i) => i,
            None => naive,
        }
    } else {
        naive
    }
}

proof fn lemma_next_end_progress(s: Seq<char>, pos: int, max: int)
    requires
        0 <= pos < s.len(),
        max >= 1,
    ensures
        pos < next_end(s, pos, max) <= s.len(),
{
    let naive = naive_end(s, pos, max);
    if naive < s.len() {
        lemma_latest_cut_in_window(s, pos, naive, CutKind::Sentence);
        lemma_latest_cut_in_window(s, pos, naive, CutKind::Paragraph);
        lemma_latest_cut_in_window(s, pos, naive, CutKind::Soft);
        lemma_latest_cut_in_window(s, pos, naive, CutKind::Word);
    }
}

/// The chunk end positions of a text whose characters from `pos` on are
/// still to be covered.
pub open spec fn cut_positions(s: Seq<char>, max: int, pos: int) -> Seq<int>
    decreases s.len() - pos,
    when 0 <= pos < s.len() && max >= 1
    via cut_positions_decreases
{
    let e = next_end(s, pos, max);
    if e >= s.len() {
        seq![e]
    } else {
        seq![e] + cut_positions(s, max, e)
    }
}

#[via_fn]
proof fn cut_positions_decreases(s: Seq<char>, max: int, pos: int) {
    lemma_next_end_progress(s, pos, max);
}

/// The chunk end positions of the whole text: one cut at the end when the
/// text already fits, otherwise the walk of `next_end` steps.
pub open spec fn split_cuts(s: Seq<char>, max: int) -> Seq<int> {
    if s.len() <= max {
        seq![s.len() as int]
    } else {
        cut_positions(s, max, 0)
    }
}

/// Where the chunk `k` of a split with these cuts begins: the first chunk at
/// zero, every later one `overlap` characters before the previous end.
pub open spec fn chunk_start(cuts: Seq<int>, k: int, overlap: int) -> int {
    if k == 0 {
        0
    } else if cuts[k - 1] - overlap >= 0 {
        cuts[k - 1] - overlap
    } else {
        0
    }
}

/// The chunks of `r` are exactly the split of `s` with the given cuts.
pub open spec fn chunks_match(r: Seq<TranslationChunk>, s: Seq<char>, cuts: Seq<int>, overlap: int) -> bool {
    &&& r.len() == cuts.len()
    &&& forall|k: int|
        0 <= k < r.len() ==> {
            &&& (#[trigger] r[k]).index == k
            &&& r[k].is_continuation == (k > 0)
            &&& r[k].text@ == s.subrange(chunk_start(cuts, k, overlap), cuts[k])
            &&& r[k].overlap_start == if k == 0 {
                0int
            } else {
                cuts[k - 1] - chunk_start(cuts, k, overlap)
            }
        }
}

/// Splits large text into overlapping chunks and merges the translations
/// back together.
pub struct TextSplitter {
    max_chunk_size: usize,
    overlap_size: usize,
}

impl TextSplitter {
    /// The configured maximum chunk length, in characters.
    pub closed spec fn spec_max(&self) -> int {
        self.max_chunk_size as int
    }

    /// The configured overlap between consecutive chunks, in characters.
    pub closed spec fn spec_overlap(&self) -> int {
        self.overlap_size as int
    }

    pub fn new(max_chunk_size: usize) -> (r: TextSplitter)
        ensures
            r.spec_max() == max_chunk_size,
            r.spec_overlap() == 50,
    {
        TextSplitter { max_chunk_size, overlap_size: 50 }
    }

    fn cut_at(chars: &Vec<char>, i: usize, kind: CutKind) -> (r: bool)
        requires
            0 < i < chars@.len(),
        ensures
            r == is_cut(chars@, i as int, kind),
    {
        let prev: char = chars[i - 1];
        match kind {
            CutKind::Sentence => {
                (prev == '.' || prev == '!' || prev == '?' || prev == '\u{3002}' || prev
                    == '\u{ff01}' || prev == '\u{ff1f}') && is_whitespace_char(chars[i])
            },
            CutKind::Paragraph => prev == '\n',
            CutKind::Soft => {
                prev == ',' || prev == ';' || prev == ':' || prev == '\u{3001}' || prev
                    == '\u{ff1b}' || prev == '\u{ff1a}'
            },
            CutKind::Word => is_whitespace_char(chars[i]) && !is_whitespace_char(prev),
        }
    }

    fn search_backward(chars: &Vec<char>, start: usize, target: usize, kind: CutKind) -> (r: Option<
        usize,
    >)
        requires
            start <= target < chars@.len(),
        ensures
            r matches Some(i) ==> latest_cut(chars@, start as int, target as int, kind) == Some(
                i as int,
            ) && start < i <= target,
            r is None ==> latest_cut(chars@, start as int, target as int, kind) is None,
    {
        let mut i: usize = target;
        while i > start
            invariant
                start <= i <= target < chars@.len(),
                forall|j: int| i < j <= target ==> !is_cut(chars@, j, kind),
            decreases i,
        {
            if Self::cut_at(chars, i, kind) {
                proof {
                    lemma_latest_cut_skip(chars@, start as int, i as int, target as int, kind);
                }
                return Some(i);
            }
            i = i - 1;
        }
        proof {
            lemma_latest_cut_skip(chars@, start as int, start as int, target as int, kind);
        }
        None
    }

    /// The boundary that the chunk ending near `target` should cut at, in
    /// priority order of boundary kinds, searching backward from `target`.
    fn find_split_point(&self, chars: &Vec<char>, start: usize, target: usize) -> (r: Option<usize>)
        requires
            start <= target < chars@.len(),
        ensures
            r matches Some(i) ==> spec_find_split(chars@, start as int, target as int) == Some(
                i as int,
            ) && start < i <= target,
            r is None ==> spec_find_split(chars@, start as int, target as int) is None,
    {
        let sentence = Self::search_backward(chars, start, target, CutKind::Sentence);
        if sentence.is_some() {
            return sentence;
        }
        let para = Self::search_backward(chars, start, target, CutKind::Paragraph);
        if para.is_some() {
            return para;
        }
        let soft = Self::search_backward(chars, start, target, CutKind::Soft);
        if soft.is_some() {
            return soft;
        }
        Self::search_backward(chars, start, target, CutKind::Word)
    }

    /// Split `text` into translatable chunks: one chunk when the text fits
    /// into `max_chunk_size` characters, otherwise a walk of boundary-adjusted
    /// cuts, each later chunk re-reading `overlap_size` characters of context.
    pub fn split_for_translation(&self, text: &str) -> (r: Vec<TranslationChunk>)
        requires
            self.spec_max() >= 1,
        ensures
            chunks_match(r@, text@, split_cuts(text@, self.spec_max()), self.spec_overlap()),
            r@.len() >= 1,
    {
        let chars: Vec<char> = str_to_chars(text);
        let total: usize = chars.len();
        let ghost s = text@;
        let ghost max = self.spec_max();
        let ghost cuts = split_cuts(s, max);

        if total <= self.max_chunk_size {
            let mut r: Vec<TranslationChunk> = Vec::new();
            r.push(
                TranslationChunk {
                    index: 0,
                    text: text.to_owned(),
                    is_continuation: false,
                    overlap_start: 0,
                },
            );
            proof {
                assert(cuts =~= seq![s.len() as int]);
                assert(s.subrange(0, s.len() as int) =~= s);
            }
            return r;
        }

        let mut r: Vec<TranslationChunk> = Vec::new();
        let mut pos: usize = 0;
        let ghost mut done: Seq<int> = Seq::empty();

        proof {
            assert(cuts =~= done + cut_positions(s, max, 0));
        }
        while pos < total
            invariant
                self.spec_max() == max,
                max >= 1,
                s == chars@,
                s.len() == total,
                total > max,
                pos <= total,
                done.len() == r@.len(),
                pos == if done.len() == 0 {
                    0int
                } else {
                    done.last()
                },
                pos < total ==> cuts =~= done + cut_positions(s, max, pos as int),
                pos == total ==> cuts =~= done,
                forall|k: int| 0 <= k < done.len() ==> cuts[k] == done[k],
                chunks_match(r@, s, done, self.spec_overlap()),
            decreases total - pos,
        {
            let idx: usize = r.len();
            let start: usize = if idx == 0 {
                0
            } else if pos >= self.overlap_size {
                pos - self.overlap_size
            } else {
                0
            };
            let naive: usize = if self.max_chunk_size < total - pos {
                pos + self.max_chunk_size
            } else {
                total
            };
            let end: usize = if naive < total {
                match self.find_split_point(&chars, pos, naive) {
                    Some(i) => i,
                    None => naive,
                }
            } else {
                naive
            };
            proof {
                assert(end == next_end(s, pos as int, max));
                lemma_next_end_progress(s, pos as int, max);
            }
            let chunk_text: String = chars_substring(&chars, start, end);
            let overlap_len: usize = if idx == 0 {
                0
            } else {
                pos - start
            };
            r.push(
                TranslationChunk {
                    index: idx,
                    text: chunk_text,
                    is_continuation: idx > 0,
                    overlap_start: overlap_len,
                },
            );
            proof {
                let prev_done = done;
                done = prev_done.push(end as int);
                assert(chunk_start(done, done.len() - 1, self.spec_overlap()) == start as int);
                assert(forall|k: int|
                    0 <= k < prev_done.len() ==> chunk_start(done, k, self.spec_overlap())
                        == chunk_start(prev_done, k, self.spec_overlap()));
                if (end as int) < s.len() {
                    assert(cut_positions(s, max, pos as int) =~= seq![end as int] + cut_positions(
                        s,
                        max,
                        end as int,
                    ));
                    assert(cuts =~= done + cut_positions(s, max, end as int));
                } else {
                    assert(cut_positions(s, max, pos as int) =~= seq![end as int]);
                    assert(cuts =~= done);
                }
            }
            pos = end;
        }
        r
    }

    /// Merge translated chunks back together: the first chunk verbatim, each
    /// later one with its leading overlap stripped, joined with a single
    /// space wherever neither side supplies whitespace at the seam.
    pub fn merge_translations(&self, chunks: Vec<TranslatedChunk>) -> (r: String)
        ensures
            r@ == spec_merge(translated_views(chunks@)),
    {
        if chunks.len() == 0 {
            return String::new();
        }
        let mut acc: Vec<char> = str_to_chars(chunks[0].translated_text.as_str());
        proof {
            assert(translated_views(chunks@).skip(1) =~= translated_views(chunks@).drop_first());
        }
        let mut i: usize = 1;
        while i < chunks.len()
            invariant
                1 <= i <= chunks@.len(),
                spec_merge(translated_views(chunks@)) == merge_from(
                    acc@,
                    translated_views(chunks@).skip(i as int),
                ),
            decreases chunks@.len() - i,
        {
            let stripped: String = if chunks[i].overlap_start > 0 {
                self.remove_overlap(
                    chunks[i - 1].translated_text.as_str(),
                    chunks[i].translated_text.as_str(),
                    chunks[i].overlap_start,
                )
            } else {
                chunks[i].translated_text.clone()
            };
            let piece: Vec<char> = str_to_chars(stripped.as_str());
            let needs_space: bool = (acc.len() == 0 || !is_whitespace_char(acc[acc.len() - 1])) && (
            piece.len() == 0 || !is_whitespace_char(piece[0]));
            let ghost acc_before = acc@;
            if needs_space {
                acc.push(' ');
            }
            let mut j: usize = 0;
            while j < piece.len()
                invariant
                    j <= piece@.len(),
                    acc@ == (if needs_space {
                        acc_before.push(' ')
                    } else {
                        acc_before
                    }) + piece@.subrange(0, j as int),
                decreases piece@.len() - j,
            {
                acc.push(piece[j]);
                proof {
                    assert(acc@ =~= (if needs_space {
                        acc_before.push(' ')
                    } else {
                        acc_before
                    }) + piece@.subrange(0, j + 1 as int));
                }
                j = j + 1;
            }
            proof {
                let views = translated_views(chunks@);
                assert(piece@ =~= strip_overlap(views[i as int].0, views[i as int].1));
                assert(acc@ =~= join_piece(acc_before, piece@));
                assert(views.skip(i as int).drop_first() =~= views.skip(i + 1 as int));
                assert(views.skip(i as int)[0] == views[i as int]);
            }
            i = i + 1;
        }
        proof {
            assert(translated_views(chunks@).skip(chunks@.len() as int)
                =~= Seq::<(Seq<char>, int)>::empty());
        }
        chars_to_string(&acc)
    }

    /// Remove overlapping content from the start of a translated chunk: the
    /// first `overlap_chars` characters go, unless the chunk is no longer
    /// than the overlap, in which case it is kept whole.
    fn remove_overlap(&self, previous: &str, current: &str, overlap_chars: usize) -> (r: String)
        ensures
            r@ == spec_remove_overlap(current@, overlap_chars as int),
    {
        let chars: Vec<char> = str_to_chars(current);
        if chars.len() > overlap_chars {
            chars_substring(&chars, overlap_chars, chars.len())
        } else {
            let copied: String = current.to_owned();
            copied
        }
    }
}

/// The tail of `t` after the first `k` characters, when `t` is longer than
/// `k`; otherwise `t` unchanged.
pub open spec fn spec_remove_overlap(t: Seq<char>, k: int) -> Seq<char> {
    if t.len() > k {
        t.skip(k)
    } else {
        t
    }
}

/// What the merge keeps of one continuation chunk: its text with the leading
/// overlap stripped, where there is an overlap to strip.
pub open spec fn strip_overlap(t: Seq<char>, k: int) -> Seq<char> {
    if k > 0 {
        spec_remove_overlap(t, k)
    } else {
        t
    }
}

/// Append one stripped piece to the accumulated merge, inserting a single
/// space when neither side supplies whitespace at the seam.
pub open spec fn join_piece(acc: Seq<char>, piece: Seq<char>) -> Seq<char> {
    let sep_needed = (acc.len() == 0 || !spec_is_whitespace(acc.last())) && (piece.len() == 0
        || !spec_is_whitespace(piece[0]));
    if sep_needed {
        acc.push(' ') + piece
    } else {
        acc + piece
    }
}

/// Fold the remaining chunks into the accumulated merge.
pub open spec fn merge_from(acc: Seq<char>, rest: Seq<(Seq<char>, int)>) -> Seq<char>
    decreases rest.len(),
{
    if rest.len() == 0 {
        acc
    } else {
        merge_from(join_piece(acc, strip_overlap(rest[0].0, rest[0].1)), rest.drop_first())
    }
}

/// The merged text of a sequence of translated chunks, each given as its
/// character sequence and its overlap length.
pub open spec fn spec_merge(chunks: Seq<(Seq<char>, int)>) -> Seq<char> {
    if chunks.len() == 0 {
        Seq::empty()
    } else {
        merge_from(chunks[0].0, chunks.drop_first())
    }
}

/// The view of translated chunks that `spec_merge` speaks about.
pub open spec fn translated_views(chunks: Seq<TranslatedChunk>) -> Seq<(Seq<char>, int)> {
    chunks.map(|k: int, c: TranslatedChunk| (c.translated_text@, c.overlap_start as int))
}

proof fn lemma_cut_positions_bounds(s: Seq<char>, max: int, pos: int)
    requires
        0 <= pos < s.len(),
        max >= 1,
    ensures
        ({
            let c = cut_positions(s, max, pos);
            &&& c.len() >= 1
            &&& forall|j: int| 0 <= j < c.len() ==> pos < #[trigger] c[j] <= s.len()
            &&& forall|j1: int, j2: int| 0 <= j1 < j2 < c.len() ==> c[j1] < c[j2]
            &&& c.last() == s.len()
        }),
    decreases s.len() - pos,
{
    lemma_next_end_progress(s, pos, max);
    let e = next_end(s, pos, max);
    if e < s.len() {
        lemma_cut_positions_bounds(s, max, e);
    }
}

/// Text that fits into one chunk makes the round trip unaltered: the split
/// is a single chunk holding the whole text, and merging one unaltered chunk
/// reproduces the text exactly.
pub proof fn lemma_split_merge_identity(text: Seq<char>, max: int, overlap: int)
    requires
        max >= 1,
        text.len() <= max,
    ensures
        split_cuts(text, max) == seq![text.len() as int],
        forall|r: Seq<TranslationChunk>|
            chunks_match(r, text, split_cuts(text, max), overlap) ==> r.len() == 1 && (
            #[trigger] r[0]).text@ == text,
        spec_merge(seq![(text, 0int)]) == text,
{
    assert(text.subrange(0, text.len() as int) =~= text);
    assert(seq![(text, 0int)].drop_first() =~= Seq::<(Seq<char>, int)>::empty());
}

/// No chunk boundary ever falls inside a character: every chunk of a split
/// is the contiguous run of whole characters of the input between its start
/// and its cut, both of which are character positions within the text.
pub proof fn lemma_split_boundaries_char_aligned(s: Seq<char>, max: int, overlap: int)
    requires
        max >= 1,
        overlap >= 0,
    ensures
        ({
            let cuts = split_cuts(s, max);
            forall|k: int|
                0 <= k < cuts.len() ==> 0 <= chunk_start(cuts, k, overlap) <= #[trigger] cuts[k]
                    <= s.len()
        }),
{
    let cuts = split_cuts(s, max);
    if s.len() <= max {
    } else {
        lemma_cut_positions_bounds(s, max, 0);
        assert forall|k: int| 0 <= k < cuts.len() implies 0 <= chunk_start(cuts, k, overlap)
            <= #[trigger] cuts[k] <= s.len() by {
            if k > 0 {
                assert(cuts[k - 1] < cuts[k]);
            }
        }
    }
}

/// A text of 250 characters with no natural boundary anywhere, split with a
/// chunk limit of 100 and the fixed overlap of 50, comes out as exactly three
/// chunks: cuts at 100, 200 and 250, the second and third flagged as
/// continuations, each carrying an overlap of 50 characters.
pub proof fn lemma_overlap_split_shape(s: Seq<char>)
    requires
        s.len() == 250,
        forall|i: int, k: CutKind| !is_cut(s, i, k),
    ensures
        split_cuts(s, 100) == seq![100int, 200int, 250int],
        forall|r: Seq<TranslationChunk>|
            chunks_match(r, s, split_cuts(s, 100), 50) ==> {
                &&& r.len() == 3
                &&& !(#[trigger] r[0]).is_continuation
                &&& r[1].is_continuation
                &&& r[2].is_continuation
                &&& r[0].overlap_start == 0
                &&& r[1].overlap_start == 50
                &&& r[2].overlap_start == 50
            },
{
    assert forall|lo: int, hi: int, k: CutKind| lo <= hi implies latest_cut(s, lo, hi, k)
        is None by {
        lemma_latest_cut_skip(s, lo, lo, hi, k);
    }
    assert(next_end(s, 0, 100) == 100);
    assert(next_end(s, 100, 100) == 200);
    assert(next_end(s, 200, 100) == 250);
    assert(cut_positions(s, 100, 200) =~= seq![250int]);
    assert(cut_positions(s, 100, 100) =~= seq![200int] + cut_positions(s, 100, 200));
    assert(cut_positions(s, 100, 0) =~= seq![100int] + cut_positions(s, 100, 100));
    assert(split_cuts(s, 100) =~= seq![100int, 200int, 250int]);
    assert forall|r: Seq<TranslationChunk>|
        chunks_match(r, s, split_cuts(s, 100), 50) implies {
        &&& r.len() == 3
        &&& !(#[trigger] r[0]).is_continuation
        &&& r[1].is_continuation
        &&& r[2].is_continuation
        &&& r[0].overlap_start == 0
        &&& r[1].overlap_start == 50
        &&& r[2].overlap_start == 50
    } by {
        let cuts = split_cuts(s, 100);
        assert(r[1].overlap_start == cuts[0] - chunk_start(cuts, 1, 50));
        assert(r[2].overlap_start == cuts[1] - chunk_start(cuts, 2, 50));
    }
}

} // verus!
