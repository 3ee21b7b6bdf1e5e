//! Character-level helpers shared by the text components: whitespace and
//! control classification, conversion between `&str` and `Vec<char>`,
//! trimming and substring search, all specified over `Seq<char>`.

use vstd::prelude::*;

verus! {

/// The Unicode `White_Space` code points, as `char::is_whitespace` counts them.
pub open spec fn spec_is_whitespace(c: char) -> bool {
    ||| c == ' '
    ||| c == '\t'
    ||| c == '\n'
    ||| c == '\u{b}'
    ||| c == '\u{c}'
    ||| c == '\r'
    ||| c == '\u{85}'
    ||| c == '\u{a0}'
    ||| c == '\u{1680}'
    ||| ('\u{2000}' <= c && c <= '\u{200a}')
    ||| c == '\u{2028}'
    ||| c == '\u{2029}'
    ||| c == '\u{202f}'
    ||| c == '\u{205f}'
    ||| c == '\u{3000}'
}

/// Whitespace test on one character, equal to `char::is_whitespace`.
pub fn is_whitespace_char(c: char) -> (r: bool)
    ensures
        r == spec_is_whitespace(c),
{
    c == ' ' || c == '\t' || c == '\n' || c == '\u{b}' || c == '\u{c}' || c == '\r'
        || c == '\u{85}' || c == '\u{a0}' || c == '\u{1680}'
        || ('\u{2000}' <= c && c <= '\u{200a}') || c == '\u{2028}' || c == '\u{2029}'
        || c == '\u{202f}' || c == '\u{205f}' || c == '\u{3000}'
}

/// The Unicode control code points, as `char::is_control` counts them:
/// C0 controls, DEL, and C1 controls.
pub open spec fn spec_is_control(c: char) -> bool {
    c <= '\u{1f}' || ('\u{7f}' <= c && c <= '\u{9f}')
}

/// Control-character test, equal to `char::is_control`.
pub fn is_control_char(c: char) -> (r: bool)
    ensures
        r == spec_is_control(c),
{
    c <= '\u{1f}' || ('\u{7f}' <= c && c <= '\u{9f}')
}

/// Every character of the sequence is whitespace (true of the empty sequence).
pub open spec fn all_whitespace(s: Seq<char>) -> bool {
    forall|i: int| 0 <= i < s.len() ==> spec_is_whitespace(s[i])
}

/// The characters of `s`, in order.
pub fn str_to_chars(s: &str) -> (v: Vec<char>)
    ensures
        v@ == s@,
{
    let n: usize = s.unicode_len();
    let mut v: Vec<char> = Vec::new();
    let mut i: usize = 0;
    while i < n
        invariant
            i <= n,
            n == s@.len(),
            v@ == s@.subrange(0, i as int),
        decreases n - i,
    {
        v.push(s.get_char(i));
        proof {
            assert(v@ =~= s@.subrange(0, i + 1 as int));
        }
        i = i + 1;
    }
    proof {
        assert(v@ =~= s@);
    }
    v
}

/// Relies on `String`'s `FromIterator<char>`: collecting characters yields
/// the string of exactly those characters in order.
#[verifier::external_body]
pub fn chars_to_string(v: &Vec<char>) -> (s: String)
    ensures
        s@ == v@,
{
    v.iter().collect()
}

/// The characters of `v` from `lo` (inclusive) to `hi` (exclusive).
pub fn chars_slice(v: &Vec<char>, lo: usize, hi: usize) -> (r: Vec<char>)
    requires
        lo <= hi <= v@.len(),
    ensures
        r@ == v@.subrange(lo as int, hi as int),
{
    let mut part: Vec<char> = Vec::new();
    let mut i: usize = lo;
    while i < hi
        invariant
            lo <= i <= hi <= v@.len(),
            part@ == v@.subrange(lo as int, i as int),
        decreases hi - i,
    {
        part.push(v[i]);
        proof {
            assert(part@ =~= v@.subrange(lo as int, i + 1 as int));
        }
        i = i + 1;
    }
    part
}

/// The substring of `v` from `lo` (inclusive) to `hi` (exclusive), as a `String`.
pub fn chars_substring(v: &Vec<char>, lo: usize, hi: usize) -> (s: String)
    requires
        lo <= hi <= v@.len(),
    ensures
        s@ == v@.subrange(lo as int, hi as int),
{
    let mut part: Vec<char> = Vec::new();
    let mut i: usize = lo;
    while i < hi
        invariant
            lo <= i <= hi <= v@.len(),
            part@ == v@.subrange(lo as int, i as int),
        decreases hi - i,
    {
        part.push(v[i]);
        proof {
            assert(part@ =~= v@.subrange(lo as int, i + 1 as int));
        }
        i = i + 1;
    }
    chars_to_string(&part)
}

/// True when every character of `v` is whitespace.
pub fn chars_all_whitespace(v: &Vec<char>) -> (r: bool)
    ensures
        r == all_whitespace(v@),
{
    let mut i: usize = 0;
    while i < v.len()
        invariant
            i <= v@.len(),
            forall|j: int| 0 <= j < i ==> spec_is_whitespace(v@[j]),
        decreases v@.len() - i,
    {
        if !is_whitespace_char(v[i]) {
            return false;
        }
        i = i + 1;
    }
    true
}

/// `s` with its leading whitespace removed.
pub open spec fn trim_front(s: Seq<char>) -> Seq<char>
    decreases s.len(),
{
    if s.len() > 0 && spec_is_whitespace(s[0]) {
        trim_front(s.drop_first())
    } else {
        s
    }
}

/// `s` with its trailing whitespace removed.
pub open spec fn trim_back(s: Seq<char>) -> Seq<char>
    decreases s.len(),
{
    if s.len() > 0 && spec_is_whitespace(s.last()) {
        trim_back(s.drop_last())
    } else {
        s
    }
}

/// `s` with leading and trailing whitespace removed, as `str::trim` leaves it.
pub open spec fn spec_trim(s: Seq<char>) -> Seq<char> {
    trim_back(trim_front(s))
}

proof fn lemma_trim_front_subrange(s: Seq<char>, lo: int)
    requires
        0 <= lo <= s.len(),
        forall|i: int| 0 <= i < lo ==> spec_is_whitespace(s[i]),
        lo < s.len() ==> !spec_is_whitespace(s[lo]),
    ensures
        trim_front(s) == s.subrange(lo, s.len() as int),
    decreases lo,
{
    if lo == 0 {
        if s.len() > 0 && spec_is_whitespace(s[0]) {
            assert(!spec_is_whitespace(s[0]));
        }
        assert(s.subrange(0, s.len() as int) =~= s);
    } else {
        assert(spec_is_whitespace(s[0]));
        let t = s.drop_first();
        assert(forall|i: int| 0 <= i < lo - 1 ==> spec_is_whitespace(#[trigger] t[i]));
        lemma_trim_front_subrange(t, lo - 1);
        assert(t.subrange(lo - 1, t.len() as int) =~= s.subrange(lo, s.len() as int));
    }
}

proof fn lemma_trim_back_subrange(s: Seq<char>, hi: int)
    requires
        0 <= hi <= s.len(),
        forall|i: int| hi <= i < s.len() ==> spec_is_whitespace(s[i]),
        hi > 0 ==> !spec_is_whitespace(s[hi - 1]),
    ensures
        trim_back(s) == s.subrange(0, hi),
    decreases s.len(),
{
    if hi == s.len() {
        if s.len() > 0 && spec_is_whitespace(s.last()) {
            assert(!spec_is_whitespace(s[hi - 1]));
        }
        assert(s.subrange(0, hi) =~= s);
    } else {
        assert(spec_is_whitespace(s.last()));
        let t = s.drop_last();
        lemma_trim_back_subrange(t, hi);
        assert(t.subrange(0, hi) =~= s.subrange(0, hi));
    }
}

/// Bounds of the trimmed region of `v`: everything before `lo` and from `hi`
/// on is whitespace, and `v[lo..hi]` is exactly what trimming leaves.
pub fn trim_bounds(v: &Vec<char>) -> (r: (usize, usize))
    ensures
        r.0 <= r.1 <= v@.len(),
        v@.subrange(r.0 as int, r.1 as int) == spec_trim(v@),
{
    let n: usize = v.len();
    let mut lo: usize = 0;
    while lo < n && is_whitespace_char(v[lo])
        invariant
            lo <= n,
            n == v@.len(),
            forall|i: int| 0 <= i < lo ==> spec_is_whitespace(v@[i]),
        decreases n - lo,
    {
        lo = lo + 1;
    }
    if lo == n {
        proof {
            lemma_trim_front_subrange(v@, lo as int);
            assert(trim_front(v@) =~= Seq::<char>::empty());
            assert(spec_trim(v@) =~= v@.subrange(lo as int, lo as int));
        }
        return (lo, lo);
    }
    let mut hi: usize = n;
    while hi > lo && is_whitespace_char(v[hi - 1])
        invariant
            lo <= hi <= n,
            n == v@.len(),
            forall|i: int| hi <= i < n ==> spec_is_whitespace(v@[i]),
            !spec_is_whitespace(v@[lo as int]),
        decreases hi,
    {
        hi = hi - 1;
    }
    proof {
        lemma_trim_front_subrange(v@, lo as int);
        let t = trim_front(v@);
        assert(hi > lo);
        assert(forall|i: int| hi - lo <= i < t.len() ==> spec_is_whitespace(#[trigger] t[i]));
        lemma_trim_back_subrange(t, hi - lo);
        assert(t.subrange(0, hi - lo) =~= v@.subrange(lo as int, hi as int));
    }
    (lo, hi)
}

/// ASCII lowercase mapping of one character.
pub open spec fn spec_ascii_lower(c: char) -> char {
    if 'A' <= c && c <= 'Z' {
        ((c as u32) + 32) as char
    } else {
        c
    }
}

/// ASCII uppercase mapping of one character.
pub open spec fn spec_ascii_upper(c: char) -> char {
    if 'a' <= c && c <= 'z' {
        ((c as u32) - 32) as char
    } else {
        c
    }
}

/// The ASCII-lowercased characters of `v`.
pub open spec fn ascii_lower_seq(s: Seq<char>) -> Seq<char> {
    s.map(|i: int, c: char| spec_ascii_lower(c))
}

/// The ASCII-uppercased characters of `v`.
pub open spec fn ascii_upper_seq(s: Seq<char>) -> Seq<char> {
    s.map(|i: int, c: char| spec_ascii_upper(c))
}

/// ASCII-lowercase every character.
pub fn chars_ascii_lower(v: &Vec<char>) -> (r: Vec<char>)
    ensures
        r@ == ascii_lower_seq(v@),
{
    let mut r: Vec<char> = Vec::new();
    let mut i: usize = 0;
    while i < v.len()
        invariant
            i <= v@.len(),
            r@.len() == i,
            forall|j: int| 0 <= j < i ==> r@[j] == spec_ascii_lower(v@[j]),
        decreases v@.len() - i,
    {
        let c: char = v[i];
        if c >= 'A' && c <= 'Z' {
            r.push(((c as u32) + 32) as u8 as char);
        } else {
            r.push(c);
        }
        i = i + 1;
    }
    proof {
        assert(r@ =~= ascii_lower_seq(v@));
    }
    r
}

/// ASCII-uppercase every character.
pub fn chars_ascii_upper(v: &Vec<char>) -> (r: Vec<char>)
    ensures
        r@ == ascii_upper_seq(v@),
{
    let mut r: Vec<char> = Vec::new();
    let mut i: usize = 0;
    while i < v.len()
        invariant
            i <= v@.len(),
            r@.len() == i,
            forall|j: int| 0 <= j < i ==> r@[j] == spec_ascii_upper(v@[j]),
        decreases v@.len() - i,
    {
        let c: char = v[i];
        if c >= 'a' && c <= 'z' {
            r.push(((c as u32) - 32) as u8 as char);
        } else {
            r.push(c);
        }
        i = i + 1;
    }
    proof {
        assert(r@ =~= ascii_upper_seq(v@));
    }
    r
}

/// Compare a character vector with a string, character by character.
pub fn chars_eq_str(v: &Vec<char>, s: &str) -> (r: bool)
    ensures
        r == (v@ == s@),
{
    let n: usize = s.unicode_len();
    if v.len() != n {
        return false;
    }
    let mut i: usize = 0;
    while i < n
        invariant
            i <= n,
            n == s@.len(),
            n == v@.len(),
            forall|j: int| 0 <= j < i ==> v@[j] == s@[j],
        decreases n - i,
    {
        if v[i] != s.get_char(i) {
            return false;
        }
        i = i + 1;
    }
    proof {
        assert(v@ =~= s@);
    }
    true
}

/// `needle` occurs in `hay` starting at position `i`.
pub open spec fn occurs_at(hay: Seq<char>, needle: Seq<char>, i: int) -> bool {
    0 <= i && i + needle.len() <= hay.len() && hay.subrange(i, i + needle.len() as int)
        == needle
}

/// `needle` occurs somewhere in `hay`, as `str::contains` reports it.
pub open spec fn spec_contains(hay: Seq<char>, needle: Seq<char>) -> bool {
    exists|i: int| occurs_at(hay, needle, i)
}

fn matches_at(hay: &Vec<char>, needle: &Vec<char>, at: usize) -> (r: bool)
    requires
        at + needle@.len() <= hay@.len(),
    ensures
        r == occurs_at(hay@, needle@, at as int),
{
    let hn: usize = hay.len();
    let mut j: usize = 0;
    while j < needle.len()
        invariant
            j <= needle@.len(),
            at + needle@.len() <= hn,
            hn == hay@.len(),
            forall|k: int| 0 <= k < j ==> hay@[at + k] == needle@[k],
        decreases needle@.len() - j,
    {
        if hay[at + j] != needle[j] {
            proof {
                assert(hay@.subrange(at as int, at + needle@.len() as int)[j as int]
                    != needle@[j as int]);
            }
            return false;
        }
        j = j + 1;
    }
    proof {
        assert(hay@.subrange(at as int, at + needle@.len() as int) =~= needle@);
    }
    true
}

/// Character-wise string equality, equal to `==` on `&str`.
pub fn str_eq(a: &str, b: &str) -> (r: bool)
    ensures
        r == (a@ == b@),
{
    let na: usize = a.unicode_len();
    let nb: usize = b.unicode_len();
    if na != nb {
        return false;
    }
    let mut i: usize = 0;
    while i < na
        invariant
            i <= na,
            na == a@.len(),
            na == b@.len(),
            forall|j: int| 0 <= j < i ==> a@[j] == b@[j],
        decreases na - i,
    {
        if a.get_char(i) != b.get_char(i) {
            return false;
        }
        i = i + 1;
    }
    proof {
        assert(a@ =~= b@);
    }
    true
}

/// Substring search over characters, equal to `str::contains`.
pub fn chars_contain(hay: &Vec<char>, needle: &Vec<char>) -> (r: bool)
    ensures
        r == spec_contains(hay@, needle@),
{
    if needle.len() > hay.len() {
        proof {
            assert(forall|i: int| !occurs_at(hay@, needle@, i));
        }
        return false;
    }
    if needle.len() == 0 {
        proof {
            assert(hay@.subrange(0, 0) =~= needle@);
            assert(occurs_at(hay@, needle@, 0));
        }
        return true;
    }
    let last: usize = hay.len() - needle.len();
    let mut i: usize = 0;
    while i <= last
        invariant
            i <= last + 1,
            last < usize::MAX,
            needle@.len() >= 1,
            last == hay@.len() - needle@.len(),
            forall|k: int| 0 <= k < i ==> !occurs_at(hay@, needle@, k),
        decreases last + 1 - i,
    {
        if matches_at(hay, needle, i) {
            return true;
        }
        i = i + 1;
    }
    proof {
        assert(forall|k: int| occurs_at(hay@, needle@, k) ==> 0 <= k <= last);
    }
    false
}

} // verus!
