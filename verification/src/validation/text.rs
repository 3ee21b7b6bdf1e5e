//! Validation and size-splitting of captured text: length bounds counted in
//! characters (never bytes), a crude token estimate, whitespace and binary
//! detection, and a paragraph-then-sentence splitter for text over the
//! length limit.

use vstd::prelude::*;

use crate::chars::all_whitespace;
use crate::chars::chars_slice;
use crate::chars::chars_to_string;
use crate::chars::is_control_char;
use crate::chars::spec_is_control;
use crate::chars::spec_trim;
use crate::chars::str_to_chars;
use crate::chars::trim_bounds;

verus! {

/// How a text can fail validation, with the measured and allowed sizes.
#[derive(Debug, Clone, PartialEq, Eq, Structural)]
pub enum TextValidationError {
    Empty,
    TooShort { length: usize, min: usize },
    TooLong { length: usize, max: usize },
    TooManyTokens { estimated: usize, max: usize },
    OnlyWhitespace,
    ContainsBinary,
}

/// The same verdicts as values, for callers that prefer a status to a
/// `Result`.
#[derive(Debug, Clone, PartialEq, Eq, Structural)]
pub enum TextValidationResult {
    Valid,
    TooShort { length: usize, min: usize },
    TooLong { length: usize, max: usize },
    TooManyTokens { estimated: usize, max: usize },
    OnlyWhitespace,
    ContainsBinary,
    Empty,
}

/// A control character that marks binary data: any control but the textual
/// `\n`, `\r`, `\t`.
pub open spec fn spec_is_binary_char(c: char) -> bool {
    spec_is_control(c) && c != '\n' && c != '\r' && c != '\t'
}

/// Some character of `s` marks binary data.
pub open spec fn has_binary(s: Seq<char>) -> bool {
    exists|i: int| 0 <= i < s.len() && spec_is_binary_char(s[i])
}

/// The crude token estimate: roughly four characters per token, rounded up.
pub open spec fn spec_token_estimate(len: int) -> int {
    (len + 3) / 4
}

/// The views of a list of strings.
pub open spec fn strings_view(v: Seq<String>) -> Seq<Seq<char>> {
    v.map(|i: int, s: String| s@)
}

/// Checks captured text against the configured limits.
#[derive(Debug, Clone)]
pub struct TextValidator {
    max_length: usize,
    max_tokens_estimate: usize,
    min_length: usize,
    allow_only_whitespace: bool,
    detect_binary_data: bool,
    trim_before_validate: bool,
}

impl TextValidator {
    pub closed spec fn spec_max_length(&self) -> usize {
        self.max_length
    }

    pub closed spec fn spec_max_tokens_estimate(&self) -> usize {
        self.max_tokens_estimate
    }

    pub closed spec fn spec_min_length(&self) -> usize {
        self.min_length
    }

    pub closed spec fn spec_allow_only_whitespace(&self) -> bool {
        self.allow_only_whitespace
    }

    pub closed spec fn spec_detect_binary_data(&self) -> bool {
        self.detect_binary_data
    }

    pub closed spec fn spec_trim_before_validate(&self) -> bool {
        self.trim_before_validate
    }

    /// A validator with the given sizes; whitespace-only text rejected,
    /// binary detection on, trimming on.
    pub fn new(max_length: usize, max_tokens_estimate: usize, min_length: usize) -> (r:
        TextValidator)
        ensures
            r.spec_max_length() == max_length,
            r.spec_max_tokens_estimate() == max_tokens_estimate,
            r.spec_min_length() == min_length,
            r.spec_allow_only_whitespace() == false,
            r.spec_detect_binary_data() == true,
            r.spec_trim_before_validate() == true,
    {
        TextValidator {
            max_length,
            max_tokens_estimate,
            min_length,
            allow_only_whitespace: false,
            detect_binary_data: true,
            trim_before_validate: true,
        }
    }

    /// The same validator, accepting or rejecting whitespace-only text.
    pub fn with_whitespace_allowed(self, allowed: bool) -> (r: TextValidator)
        ensures
            r.spec_allow_only_whitespace() == allowed,
            r.spec_max_length() == self.spec_max_length(),
            r.spec_max_tokens_estimate() == self.spec_max_tokens_estimate(),
            r.spec_min_length() == self.spec_min_length(),
            r.spec_detect_binary_data() == self.spec_detect_binary_data(),
            r.spec_trim_before_validate() == self.spec_trim_before_validate(),
    {
        TextValidator { allow_only_whitespace: allowed, ..self }
    }

    /// The same validator, with binary detection switched.
    pub fn with_binary_detection(self, detect: bool) -> (r: TextValidator)
        ensures
            r.spec_detect_binary_data() == detect,
            r.spec_max_length() == self.spec_max_length(),
            r.spec_max_tokens_estimate() == self.spec_max_tokens_estimate(),
            r.spec_min_length() == self.spec_min_length(),
            r.spec_allow_only_whitespace() == self.spec_allow_only_whitespace(),
            r.spec_trim_before_validate() == self.spec_trim_before_validate(),
    {
        TextValidator { detect_binary_data: detect, ..self }
    }

    /// The same validator, with trimming switched.
    pub fn with_trim(self, trim: bool) -> (r: TextValidator)
        ensures
            r.spec_trim_before_validate() == trim,
            r.spec_max_length() == self.spec_max_length(),
            r.spec_max_tokens_estimate() == self.spec_max_tokens_estimate(),
            r.spec_min_length() == self.spec_min_length(),
            r.spec_allow_only_whitespace() == self.spec_allow_only_whitespace(),
            r.spec_detect_binary_data() == self.spec_detect_binary_data(),
    {
        TextValidator { trim_before_validate: trim, ..self }
    }

    /// The text the checks run on: trimmed when trimming is configured.
    pub open spec fn spec_processed(&self, text: Seq<char>) -> Seq<char> {
        if self.spec_trim_before_validate() {
            spec_trim(text)
        } else {
            text
        }
    }

    /// What `validate` decides, in order: an empty processed text is
    /// `Empty` — unless the raw text was non-empty all-whitespace and
    /// whitespace-only text is rejected, which is `OnlyWhitespace`; then
    /// whitespace-only, the two length bounds, the token estimate, and
    /// binary content; otherwise the processed text is returned.
    pub open spec fn spec_validate(&self, text: Seq<char>) -> Result<
        Seq<char>,
        TextValidationError,
    > {
        let p = self.spec_processed(text);
        if p.len() == 0 {
            if !self.spec_allow_only_whitespace() && text.len() > 0 && all_whitespace(text) {
                Err(TextValidationError::OnlyWhitespace)
            } else {
                Err(TextValidationError::Empty)
            }
        } else if !self.spec_allow_only_whitespace() && all_whitespace(p) {
            Err(TextValidationError::OnlyWhitespace)
        } else if p.len() < self.spec_min_length() {
            Err(
                TextValidationError::TooShort {
                    length: p.len() as usize,
                    min: self.spec_min_length(),
                },
            )
        } else if p.len() > self.spec_max_length() {
            Err(
                TextValidationError::TooLong {
                    length: p.len() as usize,
                    max: self.spec_max_length(),
                },
            )
        } else if spec_token_estimate(p.len() as int) > self.spec_max_tokens_estimate() {
            Err(
                TextValidationError::TooManyTokens {
                    estimated: spec_token_estimate(p.len() as int) as usize,
                    max: self.spec_max_tokens_estimate(),
                },
            )
        } else if self.spec_detect_binary_data() && has_binary(p) {
            Err(TextValidationError::ContainsBinary)
        } else {
            Ok(p)
        }
    }

    /// Check `text` and hand back the processed form, or say exactly why it
    /// is rejected.
    pub fn validate(&self, text: &str) -> (r: Result<String, TextValidationError>)
        ensures
            match r {
                Ok(s) => self.spec_validate(text@) == Ok::<Seq<char>, TextValidationError>(s@),
                Err(e) => self.spec_validate(text@) == Err::<Seq<char>, TextValidationError>(e),
            },
    {
        let chars: Vec<char> = str_to_chars(text);
        let total: usize = chars.len();
        let (lo, hi): (usize, usize) = if self.trim_before_validate {
            trim_bounds(&chars)
        } else {
            (0, total)
        };
        let p: Vec<char> = chars_slice(&chars, lo, hi);
        proof {
            assert(p@ == self.spec_processed(text@));
        }
        let n: usize = p.len();

        if n == 0 {
            if !self.allow_only_whitespace && total > 0 {
                let ws: bool = crate::chars::chars_all_whitespace(&chars);
                if ws {
                    return Err(TextValidationError::OnlyWhitespace);
                }
            }
            return Err(TextValidationError::Empty);
        }

        if !self.allow_only_whitespace {
            if crate::chars::chars_all_whitespace(&p) {
                return Err(TextValidationError::OnlyWhitespace);
            }
        }

        if n < self.min_length {
            return Err(TextValidationError::TooShort { length: n, min: self.min_length });
        }
        if n > self.max_length {
            return Err(TextValidationError::TooLong { length: n, max: self.max_length });
        }

        let estimated: usize = n / 4 + if n % 4 == 0 {
            0
        } else {
            1
        };
        proof {
            assert(estimated == spec_token_estimate(n as int));
        }
        if estimated > self.max_tokens_estimate {
            return Err(
                TextValidationError::TooManyTokens {
                    estimated,
                    max: self.max_tokens_estimate,
                },
            );
        }

        if self.detect_binary_data {
            let mut i: usize = 0;
            while i < n
                invariant
                    i <= n,
                    n == p@.len(),
                    n > 0,
                    p@ == self.spec_processed(text@),
                    self.spec_allow_only_whitespace() || !all_whitespace(p@),
                    n >= self.spec_min_length(),
                    n <= self.spec_max_length(),
                    spec_token_estimate(n as int) <= self.spec_max_tokens_estimate(),
                    self.spec_detect_binary_data(),
                    forall|j: int| 0 <= j < i ==> !spec_is_binary_char(#[trigger] p@[j]),
                decreases n - i,
            {
                let c: char = p[i];
                if is_control_char(c) && c != '\n' && c != '\r' && c != '\t' {
                    proof {
                        assert(spec_is_binary_char(p@[i as int]));
                        assert(has_binary(p@));
                    }
                    return Err(TextValidationError::ContainsBinary);
                }
                i = i + 1;
            }
            proof {
                assert(!has_binary(p@));
            }
        }

        Ok(chars_to_string(&p))
    }

    /// What `split_text` returns: the processed text whole when it fits,
    /// otherwise the paragraph fold over its `\n\n`-separated paragraphs,
    /// with oversized paragraphs split by sentences and oversized sentences
    /// cut hard at the length limit.
    pub open spec fn spec_split_text(&self, text: Seq<char>) -> Seq<Seq<char>> {
        let p = self.spec_processed(text);
        if p.len() <= self.spec_max_length() {
            seq![p]
        } else {
            let acc = para_fold(
                (Seq::empty(), Seq::empty()),
                para_split(p),
                self.spec_max_length() as int,
            );
            if acc.1.len() > 0 {
                acc.0.push(acc.1)
            } else {
                acc.0
            }
        }
    }

    /// Split text over the length limit into chunks within it: whole
    /// paragraphs are packed together while they fit, an oversized
    /// paragraph is split by sentences, an oversized sentence is cut hard.
    pub fn split_text(&self, text: &str) -> (r: Vec<String>)
        requires
            self.spec_max_length() >= 1,
        ensures
            strings_view(r@) == self.spec_split_text(text@),
    {
        let chars: Vec<char> = str_to_chars(text);
        let total: usize = chars.len();
        let (lo, hi): (usize, usize) = if self.trim_before_validate {
            trim_bounds(&chars)
        } else {
            (0, total)
        };
        let p: Vec<char> = chars_slice(&chars, lo, hi);
        let ghost pv = self.spec_processed(text@);
        proof {
            assert(p@ == pv);
        }
        let n: usize = p.len();
        let max: usize = self.max_length;

        if n <= max {
            let mut r: Vec<String> = Vec::new();
            r.push(chars_to_string(&p));
            proof {
                assert(strings_view(r@) =~= seq![pv]);
            }
            return r;
        }

        let paragraphs: Vec<Vec<char>> = split_paragraphs(&p);
        let ghost paras = para_split(pv);
        let ghost m = self.spec_max_length() as int;

        let mut chunks: Vec<String> = Vec::new();
        let mut current: Vec<char> = Vec::new();
        let mut i: usize = 0;
        proof {
            assert(paras.skip(0) =~= paras);
            assert(strings_view(chunks@) =~= Seq::<Seq<char>>::empty());
        }
        while i < paragraphs.len()
            invariant
                i <= paragraphs@.len(),
                vecs_view(paragraphs@) == paras,
                m == self.spec_max_length() as int,
                max == self.spec_max_length(),
                self.spec_max_length() >= 1,
                para_fold((Seq::empty(), Seq::empty()), paras, m) == para_fold(
                    (strings_view(chunks@), current@),
                    paras.skip(i as int),
                    m,
                ),
            decreases paragraphs@.len() - i,
        {
            let ghost acc0 = (strings_view(chunks@), current@);
            let para: &Vec<char> = &paragraphs[i];
            proof {
                assert(paras.skip(i as int)[0] == paras[i as int]);
                assert(paras[i as int] == para@);
                assert(paras.skip(i as int).drop_first() =~= paras.skip(i + 1 as int));
            }
            let fits: bool = max >= 2 && para.len() <= max - 2 && current.len() <= (max - 2)
                - para.len();
            if fits {
                if current.len() > 0 {
                    current.push('\n');
                    current.push('\n');
                }
                let mut j: usize = 0;
                let ghost cur_before = current@;
                while j < para.len()
                    invariant
                        j <= para@.len(),
                        current@ == cur_before + para@.subrange(0, j as int),
                    decreases para@.len() - j,
                {
                    current.push(para[j]);
                    proof {
                        assert(current@ =~= cur_before + para@.subrange(0, j + 1 as int));
                    }
                    j = j + 1;
                }
                proof {
                    assert(para@.subrange(0, para@.len() as int) =~= para@);
                    if acc0.1.len() > 0 {
                        assert(current@ =~= acc0.1 + seq!['\n', '\n'] + para@);
                    } else {
                        assert(current@ =~= para@);
                    }
                    assert((strings_view(chunks@), current@) == para_step(acc0, para@, m));
                }
            } else {
                if current.len() > 0 {
                    let flushed: String = chars_to_string(&current);
                    let ghost cviews = strings_view(chunks@);
                    chunks.push(flushed);
                    current.clear();
                    proof {
                        assert(strings_view(chunks@) =~= cviews.push(acc0.1));
                    }
                }
                if para.len() > max {
                    let para_str: String = chars_to_string(para);
                    let mut sub: Vec<String> = self.split_by_sentences(para_str.as_str());
                    let ghost cviews = strings_view(chunks@);
                    let ghost sviews = strings_view(sub@);
                    let mut k: usize = 0;
                    while k < sub.len()
                        invariant
                            k <= sub@.len(),
                            strings_view(sub@) == sviews,
                            strings_view(chunks@) == cviews + sviews.subrange(0, k as int),
                        decreases sub@.len() - k,
                    {
                        let piece: String = sub[k].clone();
                        let ghost before = strings_view(chunks@);
                        chunks.push(piece);
                        proof {
                            assert(strings_view(chunks@) =~= before.push(sviews[k as int]));
                            assert(cviews + sviews.subrange(0, k + 1 as int) =~= before.push(
                                sviews[k as int],
                            ));
                        }
                        k = k + 1;
                    }
                    proof {
                        assert(sviews.subrange(0, sviews.len() as int) =~= sviews);
                        assert(strings_view(chunks@) =~= cviews + sviews);
                        assert((strings_view(chunks@), current@) == para_step(acc0, para@, m));
                    }
                } else {
                    let mut j: usize = 0;
                    let ghost cur_before = current@;
                    while j < para.len()
                        invariant
                            j <= para@.len(),
                            current@ == cur_before + para@.subrange(0, j as int),
                        decreases para@.len() - j,
                    {
                        current.push(para[j]);
                        proof {
                            assert(current@ =~= cur_before + para@.subrange(0, j + 1 as int));
                        }
                        j = j + 1;
                    }
                    proof {
                        assert(para@.subrange(0, para@.len() as int) =~= para@);
                        assert(current@ =~= para@);
                        assert((strings_view(chunks@), current@) == para_step(acc0, para@, m));
                    }
                }
            }
            i = i + 1;
        }
        proof {
            assert(paras.skip(paras.len() as int) =~= Seq::<Seq<char>>::empty());
        }
        if current.len() > 0 {
            let last: String = chars_to_string(&current);
            let ghost cviews = strings_view(chunks@);
            chunks.push(last);
            proof {
                assert(strings_view(chunks@) =~= cviews.push(current@));
            }
        }
        chunks
    }

    /// Pack whole sentences into chunks within the length limit, cutting an
    /// oversized sentence hard at the limit.
    fn split_by_sentences(&self, text: &str) -> (r: Vec<String>)
        requires
            self.spec_max_length() >= 1,
        ensures
            strings_view(r@) == spec_split_by_sentences(text@, self.spec_max_length() as int),
    {
        let chars: Vec<char> = str_to_chars(text);
        let pieces: Vec<Vec<char>> = split_sentence_pieces(&chars);
        let ghost ps = sent_pieces(text@);
        let ghost m = self.spec_max_length() as int;
        let max: usize = self.max_length;

        let mut chunks: Vec<String> = Vec::new();
        let mut current: Vec<char> = Vec::new();
        let mut i: usize = 0;
        proof {
            assert(ps.skip(0) =~= ps);
            assert(strings_view(chunks@) =~= Seq::<Seq<char>>::empty());
        }
        while i < pieces.len()
            invariant
                i <= pieces@.len(),
                vecs_view(pieces@) == ps,
                m == self.spec_max_length() as int,
                max == self.spec_max_length(),
                self.spec_max_length() >= 1,
                sent_fold((Seq::empty(), Seq::empty()), ps, m) == sent_fold(
                    (strings_view(chunks@), current@),
                    ps.skip(i as int),
                    m,
                ),
            decreases pieces@.len() - i,
        {
            let ghost acc0 = (strings_view(chunks@), current@);
            let piece: &Vec<char> = &pieces[i];
            proof {
                assert(ps.skip(i as int)[0] == ps[i as int]);
                assert(ps[i as int] == piece@);
                assert(ps.skip(i as int).drop_first() =~= ps.skip(i + 1 as int));
            }
            let fits: bool = piece.len() <= max && current.len() <= max - piece.len();
            if fits {
                let mut j: usize = 0;
                let ghost cur_before = current@;
                while j < piece.len()
                    invariant
                        j <= piece@.len(),
                        current@ == cur_before + piece@.subrange(0, j as int),
                    decreases piece@.len() - j,
                {
                    current.push(piece[j]);
                    proof {
                        assert(current@ =~= cur_before + piece@.subrange(0, j + 1 as int));
                    }
                    j = j + 1;
                }
                proof {
                    assert(piece@.subrange(0, piece@.len() as int) =~= piece@);
                    assert(current@ =~= acc0.1 + piece@);
                    assert((strings_view(chunks@), current@) == sent_step(acc0, piece@, m));
                }
            } else {
                if current.len() > 0 {
                    let flushed: String = chars_to_string(&current);
                    let ghost cviews = strings_view(chunks@);
                    chunks.push(flushed);
                    current.clear();
                    proof {
                        assert(strings_view(chunks@) =~= cviews.push(acc0.1));
                    }
                }
                if piece.len() > max {
                    let piece_str: String = chars_to_string(piece);
                    let sub: Vec<String> = self.hard_split(piece_str.as_str());
                    let ghost cviews = strings_view(chunks@);
                    let ghost sviews = strings_view(sub@);
                    let mut k: usize = 0;
                    while k < sub.len()
                        invariant
                            k <= sub@.len(),
                            strings_view(sub@) == sviews,
                            strings_view(chunks@) == cviews + sviews.subrange(0, k as int),
                        decreases sub@.len() - k,
                    {
                        let part: String = sub[k].clone();
                        let ghost before = strings_view(chunks@);
                        chunks.push(part);
                        proof {
                            assert(strings_view(chunks@) =~= before.push(sviews[k as int]));
                            assert(cviews + sviews.subrange(0, k + 1 as int) =~= before.push(
                                sviews[k as int],
                            ));
                        }
                        k = k + 1;
                    }
                    proof {
                        assert(sviews.subrange(0, sviews.len() as int) =~= sviews);
                        assert(strings_view(chunks@) =~= cviews + sviews);
                        assert((strings_view(chunks@), current@) == sent_step(acc0, piece@, m));
                    }
                } else {
                    let mut j: usize = 0;
                    let ghost cur_before = current@;
                    while j < piece.len()
                        invariant
                            j <= piece@.len(),
                            current@ == cur_before + piece@.subrange(0, j as int),
                        decreases piece@.len() - j,
                    {
                        current.push(piece[j]);
                        proof {
                            assert(current@ =~= cur_before + piece@.subrange(0, j + 1 as int));
                        }
                        j = j + 1;
                    }
                    proof {
                        assert(piece@.subrange(0, piece@.len() as int) =~= piece@);
                        assert(current@ =~= piece@);
                        assert((strings_view(chunks@), current@) == sent_step(acc0, piece@, m));
                    }
                }
            }
            i = i + 1;
        }
        proof {
            assert(ps.skip(ps.len() as int) =~= Seq::<Seq<char>>::empty());
        }
        if current.len() > 0 {
            let last: String = chars_to_string(&current);
            let ghost cviews = strings_view(chunks@);
            chunks.push(last);
            proof {
                assert(strings_view(chunks@) =~= cviews.push(current@));
            }
        }
        chunks
    }

    /// Cut text into pieces of exactly the length limit (the last piece
    /// shorter), character by character.
    fn hard_split(&self, text: &str) -> (r: Vec<String>)
        requires
            self.spec_max_length() >= 1,
        ensures
            strings_view(r@) == hard_pieces(text@, self.spec_max_length() as int),
    {
        let chars: Vec<char> = str_to_chars(text);
        let max: usize = self.max_length;
        let ghost m = self.spec_max_length() as int;
        let mut r: Vec<String> = Vec::new();
        let mut pos: usize = 0;
        proof {
            assert(chars@.skip(0) =~= chars@);
            assert(strings_view(r@) =~= Seq::<Seq<char>>::empty());
        }
        while pos < chars.len()
            invariant
                pos <= chars@.len(),
                max == self.spec_max_length(),
                m == max as int,
                max >= 1,
                hard_pieces(chars@, m) == strings_view(r@) + hard_pieces(
                    chars@.skip(pos as int),
                    m,
                ),
            decreases chars@.len() - pos,
        {
            let end: usize = if chars.len() - pos > max {
                pos + max
            } else {
                chars.len()
            };
            let piece: String = crate::chars::chars_substring(&chars, pos, end);
            let ghost before = strings_view(r@);
            let ghost rest = chars@.skip(pos as int);
            r.push(piece);
            proof {
                assert(strings_view(r@) =~= before.push(chars@.subrange(pos as int, end as int)));
                if rest.len() > m {
                    assert(rest.subrange(0, m) =~= chars@.subrange(pos as int, end as int));
                    assert(rest.skip(m) =~= chars@.skip(end as int));
                    assert(before + (seq![rest.subrange(0, m)] + hard_pieces(rest.skip(m), m))
                        =~= strings_view(r@) + hard_pieces(chars@.skip(end as int), m));
                } else {
                    assert(rest =~= chars@.subrange(pos as int, end as int));
                    assert(chars@.skip(end as int) =~= Seq::<char>::empty());
                    assert(hard_pieces(chars@.skip(end as int), m) =~= Seq::<Seq<char>>::empty());
                    assert(before + seq![rest] =~= strings_view(r@) + hard_pieces(
                        chars@.skip(end as int),
                        m,
                    ));
                }
            }
            pos = end;
        }
        proof {
            assert(chars@.skip(chars@.len() as int) =~= Seq::<char>::empty());
            assert(hard_pieces(chars@.skip(chars@.len() as int), m) =~= Seq::<Seq<char>>::empty());
            assert(strings_view(r@) =~= hard_pieces(chars@, m));
        }
        r
    }
}

/// The views of a list of character vectors.
pub open spec fn vecs_view(v: Seq<Vec<char>>) -> Seq<Seq<char>> {
    v.map(|i: int, c: Vec<char>| c@)
}

/// The first position where a blank-line paragraph separator (`\n\n`)
/// starts.
pub open spec fn first_para_sep(s: Seq<char>) -> Option<int>
    decreases s.len(),
{
    if s.len() < 2 {
        None
    } else if s[0] == '\n' && s[1] == '\n' {
        Some(0int)
    } else {
        match first_para_sep(s.drop_first()) {
            Some(k) => Some(1 + k),
            None => None,
        }
    }
}

proof fn lemma_first_para_sep_range(s: Seq<char>)
    ensures
        first_para_sep(s) matches Some(i) ==> 0 <= i && i + 2 <= s.len(),
    decreases s.len(),
{
    if s.len() >= 2 && !(s[0] == '\n' && s[1] == '\n') {
        lemma_first_para_sep_range(s.drop_first());
    }
}

/// The paragraphs of `s`: what splitting on every `\n\n` leaves, in order
/// (a text without the separator is one paragraph, even when empty).
pub open spec fn para_split(s: Seq<char>) -> Seq<Seq<char>>
    decreases s.len(),
    when true
    via para_split_decreases
{
    match first_para_sep(s) {
        Some(i) => seq![s.subrange(0, i)] + para_split(s.skip(i + 2)),
        None => seq![s],
    }
}

#[via_fn]
proof fn para_split_decreases(s: Seq<char>) {
    lemma_first_para_sep_range(s);
}

/// Sentence terminators of the size splitter.
pub open spec fn spec_is_sentence_terminator(c: char) -> bool {
    c == '.' || c == '!' || c == '?'
}

/// The first position of a sentence terminator.
pub open spec fn first_terminator(s: Seq<char>) -> Option<int>
    decreases s.len(),
{
    if s.len() == 0 {
        None
    } else if spec_is_sentence_terminator(s[0]) {
        Some(0int)
    } else {
        match first_terminator(s.drop_first()) {
            Some(k) => Some(1 + k),
            None => None,
        }
    }
}

proof fn lemma_first_terminator_range(s: Seq<char>)
    ensures
        first_terminator(s) matches Some(i) ==> 0 <= i < s.len(),
    decreases s.len(),
{
    if s.len() > 0 && !spec_is_sentence_terminator(s[0]) {
        lemma_first_terminator_range(s.drop_first());
    }
}

/// The sentences of `s`, each kept inclusive of its terminator, as
/// `split_inclusive` over `. ! ?` yields them (an empty text has none).
pub open spec fn sent_pieces(s: Seq<char>) -> Seq<Seq<char>>
    decreases s.len(),
    when true
    via sent_pieces_decreases
{
    if s.len() == 0 {
        Seq::empty()
    } else {
        match first_terminator(s) {
            Some(t) => seq![s.subrange(0, t + 1)] + sent_pieces(s.skip(t + 1)),
            None => seq![s],
        }
    }
}

#[via_fn]
proof fn sent_pieces_decreases(s: Seq<char>) {
    lemma_first_terminator_range(s);
}

/// Pieces of exactly `max` characters, the last one shorter.
pub open spec fn hard_pieces(s: Seq<char>, max: int) -> Seq<Seq<char>>
    decreases s.len(),
    when max >= 1
{
    if s.len() == 0 {
        Seq::empty()
    } else if s.len() <= max {
        seq![s]
    } else {
        seq![s.subrange(0, max)] + hard_pieces(s.skip(max), max)
    }
}

/// One step of the sentence fold: append the sentence to the open chunk
/// while it fits, otherwise flush the chunk and either hard-cut an
/// oversized sentence or start the next chunk with it.
pub open spec fn sent_step(
    acc: (Seq<Seq<char>>, Seq<char>),
    piece: Seq<char>,
    max: int,
) -> (Seq<Seq<char>>, Seq<char>) {
    if acc.1.len() + piece.len() <= max {
        (acc.0, acc.1 + piece)
    } else {
        let flushed = if acc.1.len() > 0 {
            acc.0.push(acc.1)
        } else {
            acc.0
        };
        if piece.len() > max {
            ((flushed + hard_pieces(piece, max)), Seq::empty())
        } else {
            (flushed, piece)
        }
    }
}

/// The sentence fold over a list of sentences.
pub open spec fn sent_fold(
    acc: (Seq<Seq<char>>, Seq<char>),
    pieces: Seq<Seq<char>>,
    max: int,
) -> (Seq<Seq<char>>, Seq<char>)
    decreases pieces.len(),
{
    if pieces.len() == 0 {
        acc
    } else {
        sent_fold(sent_step(acc, pieces[0], max), pieces.drop_first(), max)
    }
}

/// What `split_by_sentences` returns.
pub open spec fn spec_split_by_sentences(s: Seq<char>, max: int) -> Seq<Seq<char>> {
    let acc = sent_fold((Seq::empty(), Seq::empty()), sent_pieces(s), max);
    if acc.1.len() > 0 {
        acc.0.push(acc.1)
    } else {
        acc.0
    }
}

/// One step of the paragraph fold: append the paragraph (after a blank
/// line) while it fits with the separator, otherwise flush the open chunk
/// and either sentence-split an oversized paragraph or start the next
/// chunk with it.
pub open spec fn para_step(
    acc: (Seq<Seq<char>>, Seq<char>),
    para: Seq<char>,
    max: int,
) -> (Seq<Seq<char>>, Seq<char>) {
    if acc.1.len() + para.len() + 2 <= max {
        (
            acc.0,
            if acc.1.len() > 0 {
                acc.1 + seq!['\n', '\n'] + para
            } else {
                para
            },
        )
    } else {
        let flushed = if acc.1.len() > 0 {
            acc.0.push(acc.1)
        } else {
            acc.0
        };
        if para.len() > max {
            ((flushed + spec_split_by_sentences(para, max)), Seq::empty())
        } else {
            (flushed, para)
        }
    }
}

/// The paragraph fold over a list of paragraphs.
pub open spec fn para_fold(
    acc: (Seq<Seq<char>>, Seq<char>),
    paras: Seq<Seq<char>>,
    max: int,
) -> (Seq<Seq<char>>, Seq<char>)
    decreases paras.len(),
{
    if paras.len() == 0 {
        acc
    } else {
        para_fold(para_step(acc, paras[0], max), paras.drop_first(), max)
    }
}

proof fn lemma_first_para_sep_from(s: Seq<char>, a: int, b: int)
    requires
        0 <= a <= b <= s.len(),
        forall|k: int| a <= k < b ==> !(k + 1 < s.len() && #[trigger] s[k] == '\n' && s[k + 1] == '\n'),
    ensures
        first_para_sep(s.skip(a)) == match first_para_sep(s.skip(b)) {
            Some(k) => Some(k + (b - a)),
            None => None::<int>,
        },
    decreases b - a,
{
    if a < b {
        let t = s.skip(a);
        assert(!(a + 1 < s.len() && s[a] == '\n' && s[a + 1] == '\n'));
        if t.len() >= 2 {
            assert(t[0] == s[a] && t[1] == s[a + 1]);
            assert(!(t[0] == '\n' && t[1] == '\n'));
            assert(t.drop_first() =~= s.skip(a + 1));
            lemma_first_para_sep_from(s, a + 1, b);
        } else {
            assert(s.skip(b).len() < 2);
            lemma_first_para_sep_from(s, a + 1, b);
            assert(t.drop_first() =~= s.skip(a + 1));
        }
    }
}

fn split_paragraphs(p: &Vec<char>) -> (r: Vec<Vec<char>>)
    ensures
        vecs_view(r@) == para_split(p@),
{
    let n: usize = p.len();
    let mut r: Vec<Vec<char>> = Vec::new();
    let mut pos: usize = 0;
    proof {
        assert(p@.skip(0) =~= p@);
        assert(vecs_view(r@) =~= Seq::<Seq<char>>::empty());
    }
    loop
        invariant
            pos <= n,
            n == p@.len(),
            para_split(p@) == vecs_view(r@) + para_split(p@.skip(pos as int)),
        decreases n - pos,
    {
        let mut j: usize = pos;
        while n - j > 1 && !(p[j] == '\n' && p[j + 1] == '\n')
            invariant
                pos <= j <= n,
                n == p@.len(),
                forall|k: int|
                    pos <= k < j ==> !(k + 1 < p@.len() && #[trigger] p@[k] == '\n' && p@[k + 1]
                        == '\n'),
            decreases n - j,
        {
            j = j + 1;
        }
        if n - j > 1 {
            proof {
                lemma_first_para_sep_from(p@, pos as int, j as int);
                assert(p@.skip(j as int)[0] == p@[j as int]);
                assert(p@.skip(j as int)[1] == p@[j + 1]);
                assert(first_para_sep(p@.skip(j as int)) == Some(0int));
                assert(first_para_sep(p@.skip(pos as int)) == Some(j - pos));
            }
            let para: Vec<char> = chars_slice(p, pos, j);
            let ghost before = vecs_view(r@);
            r.push(para);
            proof {
                assert(p@.skip(pos as int).subrange(0, j - pos) =~= p@.subrange(
                    pos as int,
                    j as int,
                ));
                assert(p@.skip(pos as int).skip(j - pos + 2) =~= p@.skip(j + 2 as int));
                assert(vecs_view(r@) =~= before.push(p@.subrange(pos as int, j as int)));
                assert(para_split(p@.skip(pos as int)) =~= seq![
                    p@.subrange(pos as int, j as int),
                ] + para_split(p@.skip(j + 2 as int)));
                assert(vecs_view(r@) + para_split(p@.skip(j + 2 as int)) =~= (before + (seq![
                    p@.subrange(pos as int, j as int),
                ] + para_split(p@.skip(j + 2 as int)))));
            }
            pos = j + 2;
        } else {
            proof {
                lemma_first_para_sep_from(p@, pos as int, j as int);
                assert(p@.skip(j as int).len() < 2);
                assert(first_para_sep(p@.skip(j as int)) is None);
                assert(first_para_sep(p@.skip(pos as int)) is None);
            }
            let para: Vec<char> = chars_slice(p, pos, n);
            let ghost before = vecs_view(r@);
            r.push(para);
            proof {
                assert(p@.subrange(pos as int, n as int) =~= p@.skip(pos as int));
                assert(vecs_view(r@) =~= before.push(p@.skip(pos as int)));
                assert(para_split(p@.skip(pos as int)) =~= seq![p@.skip(pos as int)]);
                assert(vecs_view(r@) =~= vecs_view(r@) + Seq::<Seq<char>>::empty());
                assert(para_split(p@) =~= vecs_view(r@));
            }
            return r;
        }
    }
}

proof fn lemma_first_terminator_from(s: Seq<char>, a: int, b: int)
    requires
        0 <= a <= b <= s.len(),
        forall|k: int| a <= k < b ==> !spec_is_sentence_terminator(s[k]),
    ensures
        first_terminator(s.skip(a)) == match first_terminator(s.skip(b)) {
            Some(k) => Some(k + (b - a)),
            None => None::<int>,
        },
    decreases b - a,
{
    if a < b {
        let t = s.skip(a);
        assert(t[0] == s[a]);
        assert(!spec_is_sentence_terminator(t[0]));
        assert(t.drop_first() =~= s.skip(a + 1));
        lemma_first_terminator_from(s, a + 1, b);
    }
}

fn split_sentence_pieces(p: &Vec<char>) -> (r: Vec<Vec<char>>)
    ensures
        vecs_view(r@) == sent_pieces(p@),
{
    let n: usize = p.len();
    let mut r: Vec<Vec<char>> = Vec::new();
    let mut pos: usize = 0;
    proof {
        assert(p@.skip(0) =~= p@);
        assert(vecs_view(r@) =~= Seq::<Seq<char>>::empty());
    }
    while pos < n
        invariant
            pos <= n,
            n == p@.len(),
            sent_pieces(p@) == vecs_view(r@) + sent_pieces(p@.skip(pos as int)),
        decreases n - pos,
    {
        let mut j: usize = pos;
        while j < n && !(p[j] == '.' || p[j] == '!' || p[j] == '?')
            invariant
                pos <= j <= n,
                n == p@.len(),
                forall|k: int| pos <= k < j ==> !spec_is_sentence_terminator(p@[k]),
            decreases n - j,
        {
            j = j + 1;
        }
        proof {
            lemma_first_terminator_from(p@, pos as int, j as int);
        }
        if j < n {
            proof {
                assert(p@.skip(j as int)[0] == p@[j as int]);
                assert(first_terminator(p@.skip(j as int)) == Some(0int));
                assert(first_terminator(p@.skip(pos as int)) == Some(j - pos));
            }
            let piece: Vec<char> = chars_slice(p, pos, j + 1);
            let ghost before = vecs_view(r@);
            r.push(piece);
            proof {
                assert(p@.skip(pos as int).subrange(0, j - pos + 1) =~= p@.subrange(
                    pos as int,
                    j + 1 as int,
                ));
                assert(p@.skip(pos as int).skip(j - pos + 1) =~= p@.skip(j + 1 as int));
                assert(vecs_view(r@) =~= before.push(p@.subrange(pos as int, j + 1 as int)));
                assert(sent_pieces(p@.skip(pos as int)) =~= seq![
                    p@.subrange(pos as int, j + 1 as int),
                ] + sent_pieces(p@.skip(j + 1 as int)));
                assert(vecs_view(r@) + sent_pieces(p@.skip(j + 1 as int)) =~= (before + (seq![
                    p@.subrange(pos as int, j + 1 as int),
                ] + sent_pieces(p@.skip(j + 1 as int)))));
            }
            pos = j + 1;
        } else {
            proof {
                assert(p@.skip(j as int).len() == 0);
                assert(first_terminator(p@.skip(j as int)) is None);
                assert(first_terminator(p@.skip(pos as int)) is None);
            }
            let piece: Vec<char> = chars_slice(p, pos, n);
            let ghost before = vecs_view(r@);
            r.push(piece);
            proof {
                assert(p@.subrange(pos as int, n as int) =~= p@.skip(pos as int));
                assert(vecs_view(r@) =~= before.push(p@.skip(pos as int)));
                assert(sent_pieces(p@.skip(pos as int)) =~= seq![p@.skip(pos as int)]);
                assert(p@.skip(n as int) =~= Seq::<char>::empty());
                assert(sent_pieces(p@.skip(n as int)) =~= Seq::<Seq<char>>::empty());
                assert(sent_pieces(p@) =~= vecs_view(r@) + sent_pieces(p@.skip(n as int)));
            }
            return r;
        }
    }
    proof {
        assert(p@.skip(n as int) =~= Seq::<char>::empty());
        assert(sent_pieces(p@.skip(n as int)) =~= Seq::<Seq<char>>::empty());
        assert(vecs_view(r@) =~= sent_pieces(p@));
    }
    r
}

} // verus!
