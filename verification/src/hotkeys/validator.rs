//! Hotkey combinations and their validation: parsing combo strings such as
//! `Ctrl+Shift+T`, rendering them back, and checking a combination against
//! the platform's system shortcuts, the already-registered set, and the
//! reserved clipboard keys.
//!
//! Modifiers and key codes are the library's own plain types; the layer
//! that registers combinations with the operating system converts them at
//! its edge.

use vstd::prelude::*;

use crate::chars::ascii_lower_seq;
use crate::chars::ascii_upper_seq;
use crate::chars::chars_ascii_lower;
use crate::chars::chars_ascii_upper;
use crate::chars::chars_eq_str;
use crate::chars::chars_slice;
use crate::chars::chars_to_string;
use crate::chars::str_to_chars;

verus! {

/// The platforms whose system shortcuts the validator knows.
#[derive(Debug, Clone, Copy, PartialEq, Eq, Hash, Structural)]
pub enum Platform {
    Windows,
    MacOS,
    Linux,
}

/// The modifier keys held together with the main key.
#[derive(Debug, Clone, Copy, PartialEq, Eq, Hash, Structural)]
pub struct Modifiers {
    pub control: bool,
    pub alt: bool,
    pub shift: bool,
    pub meta: bool,
}

impl Modifiers {
    /// No modifier at all.
    pub open spec fn spec_is_empty(self) -> bool {
        self == (Modifiers { control: false, alt: false, shift: false, meta: false })
    }

    /// No modifier at all.
    pub fn empty() -> (r: Modifiers)
        ensures
            r.spec_is_empty(),
    {
        Modifiers { control: false, alt: false, shift: false, meta: false }
    }

    /// Whether no modifier is set.
    pub fn is_empty(&self) -> (r: bool)
        ensures
            r == self.spec_is_empty(),
    {
        !self.control && !self.alt && !self.shift && !self.meta
    }

    /// Only `Ctrl`.
    pub fn control() -> (r: Modifiers)
        ensures
            r == (Modifiers { control: true, alt: false, shift: false, meta: false }),
    {
        Modifiers { control: true, alt: false, shift: false, meta: false }
    }

    /// Only `Alt`.
    pub fn alt() -> (r: Modifiers)
        ensures
            r == (Modifiers { control: false, alt: true, shift: false, meta: false }),
    {
        Modifiers { control: false, alt: true, shift: false, meta: false }
    }

    /// Only `Shift`.
    pub fn shift() -> (r: Modifiers)
        ensures
            r == (Modifiers { control: false, alt: false, shift: true, meta: false }),
    {
        Modifiers { control: false, alt: false, shift: true, meta: false }
    }

    /// Only the platform (`Win`/`Cmd`) key.
    pub fn meta() -> (r: Modifiers)
        ensures
            r == (Modifiers { control: false, alt: false, shift: false, meta: true }),
    {
        Modifiers { control: false, alt: false, shift: false, meta: true }
    }

    /// The union of two modifier sets.
    pub fn or(self, other: Modifiers) -> (r: Modifiers)
        ensures
            r == (Modifiers {
                control: self.control || other.control,
                alt: self.alt || other.alt,
                shift: self.shift || other.shift,
                meta: self.meta || other.meta,
            }),
    {
        Modifiers {
            control: self.control || other.control,
            alt: self.alt || other.alt,
            shift: self.shift || other.shift,
            meta: self.meta || other.meta,
        }
    }
}

/// The main keys a hotkey can bind.
#[derive(Debug, Clone, Copy, PartialEq, Eq, Hash, Structural)]
pub enum Code {
    KeyA,
    KeyB,
    KeyC,
    KeyD,
    KeyE,
    KeyF,
    KeyG,
    KeyH,
    KeyI,
    KeyJ,
    KeyK,
    KeyL,
    KeyM,
    KeyN,
    KeyO,
    KeyP,
    KeyQ,
    KeyR,
    KeyS,
    KeyT,
    KeyU,
    KeyV,
    KeyW,
    KeyX,
    KeyY,
    KeyZ,
    Digit0,
    Digit1,
    Digit2,
    Digit3,
    Digit4,
    Digit5,
    Digit6,
    Digit7,
    Digit8,
    Digit9,
    Escape,
    Space,
    Enter,
    Tab,
    Delete,
    F1,
    F2,
    F3,
    F4,
    F5,
    F6,
    F7,
    F8,
    F9,
    F10,
    F11,
    F12,
}

/// One hotkey: its modifiers and its main key.
#[derive(Debug, Clone, Copy, PartialEq, Eq, Structural)]
pub struct KeyCombo {
    pub modifiers: Modifiers,
    pub key: Code,
}

/// How validation judges a combination.
#[derive(Debug, Clone, Copy, PartialEq, Eq, Structural)]
pub enum ValidationResult {
    Valid,
    SystemConflict,
    AlreadyRegistered,
    TooSimple,
    Reserved,
}

/// Why a combination string or registration is rejected.
#[derive(Debug, Clone)]
pub enum HotkeyValidationError {
    InvalidFormat(String),
    UnknownKey(String),
    SystemConflict,
    AlreadyRegistered,
    TooSimple,
    Reserved,
}

/// The first `+` of a combo string.
pub open spec fn first_plus(s: Seq<char>) -> Option<int>
    decreases s.len(),
{
    if s.len() == 0 {
        None
    } else if s[0] == '+' {
        Some(0int)
    } else {
        match first_plus(s.drop_first()) {
            Some(k) => Some(1 + k),
            None => None,
        }
    }
}

proof fn lemma_first_plus_range(s: Seq<char>)
    ensures
        first_plus(s) matches Some(i) ==> 0 <= i < s.len(),
    decreases s.len(),
{
    if s.len() > 0 && s[0] != '+' {
        lemma_first_plus_range(s.drop_first());
    }
}

/// The `+`-separated parts of a combo string, in order.
pub open spec fn plus_split(s: Seq<char>) -> Seq<Seq<char>>
    decreases s.len(),
    when true
    via plus_split_decreases
{
    match first_plus(s) {
        Some(i) => seq![s.subrange(0, i)] + plus_split(s.skip(i + 1)),
        None => seq![s],
    }
}

#[via_fn]
proof fn plus_split_decreases(s: Seq<char>) {
    lemma_first_plus_range(s);
}

/// Whether a lowercased part names a modifier, and which.
pub open spec fn spec_modifier_of(low: Seq<char>) -> Option<Modifiers> {
    if low == "ctrl"@ || low == "control"@ {
        Some(Modifiers { control: true, alt: false, shift: false, meta: false })
    } else if low == "alt"@ {
        Some(Modifiers { control: false, alt: true, shift: false, meta: false })
    } else if low == "shift"@ {
        Some(Modifiers { control: false, alt: false, shift: true, meta: false })
    } else if low == "cmd"@ || low == "command"@ || low == "meta"@ || low == "win"@ || low
        == "windows"@ {
        Some(Modifiers { control: false, alt: false, shift: false, meta: true })
    } else {
        None
    }
}

/// The union of two modifier sets.
pub open spec fn spec_mod_union(a: Modifiers, b: Modifiers) -> Modifiers {
    Modifiers {
        control: a.control || b.control,
        alt: a.alt || b.alt,
        shift: a.shift || b.shift,
        meta: a.meta || b.meta,
    }
}

/// Fold the parts of a combo string: modifier names accumulate, every
/// other part becomes the key candidate (the last one wins).
pub open spec fn parts_fold(mods: Modifiers, key: Option<Seq<char>>, parts: Seq<Seq<char>>) -> (
    Modifiers,
    Option<Seq<char>>,
)
    decreases parts.len(),
{
    if parts.len() == 0 {
        (mods, key)
    } else {
        match spec_modifier_of(ascii_lower_seq(parts[0])) {
            Some(m) => parts_fold(spec_mod_union(mods, m), key, parts.drop_first()),
            None => parts_fold(mods, Some(parts[0]), parts.drop_first()),
        }
    }
}

/// The key a (case-folded) key name denotes, if any.
pub open spec fn spec_parse_key(up: Seq<char>) -> Option<Code> {
    if up == "A"@ {
        Some(Code::KeyA)
    } else if up == "B"@ {
        Some(Code::KeyB)
    } else if up == "C"@ {
        Some(Code::KeyC)
    } else if up == "D"@ {
        Some(Code::KeyD)
    } else if up == "E"@ {
        Some(Code::KeyE)
    } else if up == "F"@ {
        Some(Code::KeyF)
    } else if up == "G"@ {
        Some(Code::KeyG)
    } else if up == "H"@ {
        Some(Code::KeyH)
    } else if up == "I"@ {
        Some(Code::KeyI)
    } else if up == "J"@ {
        Some(Code::KeyJ)
    } else if up == "K"@ {
        Some(Code::KeyK)
    } else if up == "L"@ {
        Some(Code::KeyL)
    } else if up == "M"@ {
        Some(Code::KeyM)
    } else if up == "N"@ {
        Some(Code::KeyN)
    } else if up == "O"@ {
        Some(Code::KeyO)
    } else if up == "P"@ {
        Some(Code::KeyP)
    } else if up == "Q"@ {
        Some(Code::KeyQ)
    } else if up == "R"@ {
        Some(Code::KeyR)
    } else if up == "S"@ {
        Some(Code::KeyS)
    } else if up == "T"@ {
        Some(Code::KeyT)
    } else if up == "U"@ {
        Some(Code::KeyU)
    } else if up == "V"@ {
        Some(Code::KeyV)
    } else if up == "W"@ {
        Some(Code::KeyW)
    } else if up == "X"@ {
        Some(Code::KeyX)
    } else if up == "Y"@ {
        Some(Code::KeyY)
    } else if up == "Z"@ {
        Some(Code::KeyZ)
    } else if up == "0"@ {
        Some(Code::Digit0)
    } else if up == "1"@ {
        Some(Code::Digit1)
    } else if up == "2"@ {
        Some(Code::Digit2)
    } else if up == "3"@ {
        Some(Code::Digit3)
    } else if up == "4"@ {
        Some(Code::Digit4)
    } else if up == "5"@ {
        Some(Code::Digit5)
    } else if up == "6"@ {
        Some(Code::Digit6)
    } else if up == "7"@ {
        Some(Code::Digit7)
    } else if up == "8"@ {
        Some(Code::Digit8)
    } else if up == "9"@ {
        Some(Code::Digit9)
    } else if up == "ESCAPE"@ || up == "ESC"@ {
        Some(Code::Escape)
    } else if up == "SPACE"@ {
        Some(Code::Space)
    } else if up == "ENTER"@ || up == "RETURN"@ {
        Some(Code::Enter)
    } else if up == "TAB"@ {
        Some(Code::Tab)
    } else if up == "DELETE"@ || up == "DEL"@ {
        Some(Code::Delete)
    } else if up == "F1"@ {
        Some(Code::F1)
    } else if up == "F2"@ {
        Some(Code::F2)
    } else if up == "F3"@ {
        Some(Code::F3)
    } else if up == "F4"@ {
        Some(Code::F4)
    } else if up == "F5"@ {
        Some(Code::F5)
    } else if up == "F6"@ {
        Some(Code::F6)
    } else if up == "F7"@ {
        Some(Code::F7)
    } else if up == "F8"@ {
        Some(Code::F8)
    } else if up == "F9"@ {
        Some(Code::F9)
    } else if up == "F10"@ {
        Some(Code::F10)
    } else if up == "F11"@ {
        Some(Code::F11)
    } else if up == "F12"@ {
        Some(Code::F12)
    } else {
        None
    }
}

/// What `KeyCombo::from_string` returns: the parts folded into modifiers
/// and a key candidate; no candidate is a format error, an unrecognised
/// candidate an unknown-key error.
pub open spec fn spec_from_string(s: Seq<char>, r: Result<KeyCombo, HotkeyValidationError>) -> bool {
    let folded = parts_fold(
        (Modifiers { control: false, alt: false, shift: false, meta: false }),
        None,
        plus_split(s),
    );
    match folded.1 {
        Some(keypart) => match spec_parse_key(ascii_upper_seq(keypart)) {
            Some(code) => r matches Ok(c) && c == (KeyCombo { modifiers: folded.0, key: code }),
            None => r matches Err(HotkeyValidationError::UnknownKey(k)) && k@ == keypart,
        },
        None => r matches Err(HotkeyValidationError::InvalidFormat(f)) && f@ == s,
    }
}

fn split_plus_parts(p: &Vec<char>) -> (r: Vec<Vec<char>>)
    ensures
        vecs_view_hk(r@) == plus_split(p@),
{
    let n: usize = p.len();
    let mut r: Vec<Vec<char>> = Vec::new();
    let mut pos: usize = 0;
    proof {
        assert(p@.skip(0) =~= p@);
        assert(vecs_view_hk(r@) =~= Seq::<Seq<char>>::empty());
    }
    loop
        invariant
            pos <= n,
            n == p@.len(),
            plus_split(p@) == vecs_view_hk(r@) + plus_split(p@.skip(pos as int)),
        decreases n - pos,
    {
        let mut j: usize = pos;
        while j < n && p[j] != '+'
            invariant
                pos <= j <= n,
                n == p@.len(),
                forall|k: int| pos <= k < j ==> #[trigger] p@[k] != '+',
            decreases n - j,
        {
            j = j + 1;
        }
        proof {
            lemma_first_plus_from(p@, pos as int, j as int);
        }
        if j < n {
            proof {
                assert(p@.skip(j as int)[0] == p@[j as int]);
                assert(first_plus(p@.skip(j as int)) == Some(0int));
                assert(first_plus(p@.skip(pos as int)) == Some(j - pos));
            }
            let part: Vec<char> = chars_slice(p, pos, j);
            let ghost before = vecs_view_hk(r@);
            r.push(part);
            proof {
                assert(p@.skip(pos as int).subrange(0, j - pos) =~= p@.subrange(
                    pos as int,
                    j as int,
                ));
                assert(p@.skip(pos as int).skip(j - pos + 1) =~= p@.skip(j + 1 as int));
                assert(vecs_view_hk(r@) =~= before.push(p@.subrange(pos as int, j as int)));
                assert(plus_split(p@.skip(pos as int)) =~= seq![
                    p@.subrange(pos as int, j as int),
                ] + plus_split(p@.skip(j + 1 as int)));
                assert(vecs_view_hk(r@) + plus_split(p@.skip(j + 1 as int)) =~= (before + (seq![
                    p@.subrange(pos as int, j as int),
                ] + plus_split(p@.skip(j + 1 as int)))));
            }
            pos = j + 1;
        } else {
            proof {
                assert(p@.skip(j as int).len() == 0);
                assert(first_plus(p@.skip(j as int)) is None);
                assert(first_plus(p@.skip(pos as int)) is None);
            }
            let part: Vec<char> = chars_slice(p, pos, n);
            let ghost before = vecs_view_hk(r@);
            r.push(part);
            proof {
                assert(p@.subrange(pos as int, n as int) =~= p@.skip(pos as int));
                assert(vecs_view_hk(r@) =~= before.push(p@.skip(pos as int)));
                assert(plus_split(p@.skip(pos as int)) =~= seq![p@.skip(pos as int)]);
                assert(plus_split(p@) =~= vecs_view_hk(r@));
            }
            return r;
        }
    }
}

/// The views of a list of character vectors.
pub open spec fn vecs_view_hk(v: Seq<Vec<char>>) -> Seq<Seq<char>> {
    v.map(|i: int, c: Vec<char>| c@)
}

proof fn lemma_first_plus_from(s: Seq<char>, a: int, b: int)
    requires
        0 <= a <= b <= s.len(),
        forall|k: int| a <= k < b ==> #[trigger] s[k] != '+',
    ensures
        first_plus(s.skip(a)) == match first_plus(s.skip(b)) {
            Some(k) => Some(k + (b - a)),
            None => None::<int>,
        },
    decreases b - a,
{
    if a < b {
        let t = s.skip(a);
        assert(t[0] == s[a]);
        assert(t.drop_first() =~= s.skip(a + 1));
        lemma_first_plus_from(s, a + 1, b);
    }
}

fn exec_modifier_of(low: &Vec<char>) -> (r: Option<Modifiers>)
    ensures
        r == spec_modifier_of(low@),
{
    if chars_eq_str(low, "ctrl") || chars_eq_str(low, "control") {
        Some(Modifiers { control: true, alt: false, shift: false, meta: false })
    } else if chars_eq_str(low, "alt") {
        Some(Modifiers { control: false, alt: true, shift: false, meta: false })
    } else if chars_eq_str(low, "shift") {
        Some(Modifiers { control: false, alt: false, shift: true, meta: false })
    } else if chars_eq_str(low, "cmd") || chars_eq_str(low, "command") || chars_eq_str(low, "meta")
        || chars_eq_str(low, "win") || chars_eq_str(low, "windows") {
        Some(Modifiers { control: false, alt: false, shift: false, meta: true })
    } else {
        None
    }
}

impl KeyCombo {
    pub fn new(modifiers: Modifiers, key: Code) -> (r: KeyCombo)
        ensures
            r == (KeyCombo { modifiers, key }),
    {
        KeyCombo { modifiers, key }
    }

    /// Parse a combo string such as `Ctrl+Shift+T`: modifier names (in any
    /// case) accumulate, the remaining part names the key.
    pub fn from_string(combo: &str) -> (r: Result<KeyCombo, HotkeyValidationError>)
        ensures
            spec_from_string(combo@, r),
    {
        let chars: Vec<char> = str_to_chars(combo);
        let parts: Vec<Vec<char>> = split_plus_parts(&chars);
        let ghost ps = plus_split(combo@);

        let mut mods: Modifiers = Modifiers::empty();
        let mut key_part: Option<Vec<char>> = None;
        let mut i: usize = 0;
        proof {
            assert(ps.skip(0) =~= ps);
        }
        while i < parts.len()
            invariant
                i <= parts@.len(),
                vecs_view_hk(parts@) == ps,
                parts_fold(
                    (Modifiers { control: false, alt: false, shift: false, meta: false }),
                    None,
                    ps,
                ) == parts_fold(
                    mods,
                    match key_part {
                        Some(v) => Some(v@),
                        None => None::<Seq<char>>,
                    },
                    ps.skip(i as int),
                ),
            decreases parts@.len() - i,
        {
            proof {
                assert(ps.skip(i as int)[0] == ps[i as int]);
                assert(ps[i as int] == parts@[i as int]@);
                assert(ps.skip(i as int).drop_first() =~= ps.skip(i + 1 as int));
            }
            let low: Vec<char> = chars_ascii_lower(&parts[i]);
            match exec_modifier_of(&low) {
                Some(m) => {
                    mods = mods.or(m);
                },
                None => {
                    key_part = Some(chars_slice(&parts[i], 0, parts[i].len()));
                    proof {
                        assert(parts@[i as int]@.subrange(0, parts@[i as int]@.len() as int)
                            =~= parts@[i as int]@);
                    }
                },
            }
            i = i + 1;
        }
        proof {
            assert(ps.skip(ps.len() as int) =~= Seq::<Seq<char>>::empty());
        }

        match key_part {
            Some(kp) => {
                let up: Vec<char> = chars_ascii_upper(&kp);
                match Self::parse_key_chars(&up) {
                    Some(code) => Ok(KeyCombo { modifiers: mods, key: code }),
                    None => Err(HotkeyValidationError::UnknownKey(chars_to_string(&kp))),
                }
            },
            None => Err(HotkeyValidationError::InvalidFormat(combo.to_owned())),
        }
    }

    fn parse_key_chars(up: &Vec<char>) -> (r: Option<Code>)
        ensures
            r == spec_parse_key(up@),
    {
        if chars_eq_str(up, "A") {
            Some(Code::KeyA)
        } else if chars_eq_str(up, "B") {
            Some(Code::KeyB)
        } else if chars_eq_str(up, "C") {
            Some(Code::KeyC)
        } else if chars_eq_str(up, "D") {
            Some(Code::KeyD)
        } else if chars_eq_str(up, "E") {
            Some(Code::KeyE)
        } else if chars_eq_str(up, "F") {
            Some(Code::KeyF)
        } else if chars_eq_str(up, "G") {
            Some(Code::KeyG)
        } else if chars_eq_str(up, "H") {
            Some(Code::KeyH)
        } else if chars_eq_str(up, "I") {
            Some(Code::KeyI)
        } else if chars_eq_str(up, "J") {
            Some(Code::KeyJ)
        } else if chars_eq_str(up, "K") {
            Some(Code::KeyK)
        } else if chars_eq_str(up, "L") {
            Some(Code::KeyL)
        } else if chars_eq_str(up, "M") {
            Some(Code::KeyM)
        } else if chars_eq_str(up, "N") {
            Some(Code::KeyN)
        } else if chars_eq_str(up, "O") {
            Some(Code::KeyO)
        } else if chars_eq_str(up, "P") {
            Some(Code::KeyP)
        } else if chars_eq_str(up, "Q") {
            Some(Code::KeyQ)
        } else if chars_eq_str(up, "R") {
            Some(Code::KeyR)
        } else if chars_eq_str(up, "S") {
            Some(Code::KeyS)
        } else if chars_eq_str(up, "T") {
            Some(Code::KeyT)
        } else if chars_eq_str(up, "U") {
            Some(Code::KeyU)
        } else if chars_eq_str(up, "V") {
            Some(Code::KeyV)
        } else if chars_eq_str(up, "W") {
            Some(Code::KeyW)
        } else if chars_eq_str(up, "X") {
            Some(Code::KeyX)
        } else if chars_eq_str(up, "Y") {
            Some(Code::KeyY)
        } else if chars_eq_str(up, "Z") {
            Some(Code::KeyZ)
        } else if chars_eq_str(up, "0") {
            Some(Code::Digit0)
        } else if chars_eq_str(up, "1") {
            Some(Code::Digit1)
        } else if chars_eq_str(up, "2") {
            Some(Code::Digit2)
        } else if chars_eq_str(up, "3") {
            Some(Code::Digit3)
        } else if chars_eq_str(up, "4") {
            Some(Code::Digit4)
        } else if chars_eq_str(up, "5") {
            Some(Code::Digit5)
        } else if chars_eq_str(up, "6") {
            Some(Code::Digit6)
        } else if chars_eq_str(up, "7") {
            Some(Code::Digit7)
        } else if chars_eq_str(up, "8") {
            Some(Code::Digit8)
        } else if chars_eq_str(up, "9") {
            Some(Code::Digit9)
        } else if chars_eq_str(up, "ESCAPE") || chars_eq_str(up, "ESC") {
            Some(Code::Escape)
        } else if chars_eq_str(up, "SPACE") {
            Some(Code::Space)
        } else if chars_eq_str(up, "ENTER") || chars_eq_str(up, "RETURN") {
            Some(Code::Enter)
        } else if chars_eq_str(up, "TAB") {
            Some(Code::Tab)
        } else if chars_eq_str(up, "DELETE") || chars_eq_str(up, "DEL") {
            Some(Code::Delete)
        } else if chars_eq_str(up, "F1") {
            Some(Code::F1)
        } else if chars_eq_str(up, "F2") {
            Some(Code::F2)
        } else if chars_eq_str(up, "F3") {
            Some(Code::F3)
        } else if chars_eq_str(up, "F4") {
            Some(Code::F4)
        } else if chars_eq_str(up, "F5") {
            Some(Code::F5)
        } else if chars_eq_str(up, "F6") {
            Some(Code::F6)
        } else if chars_eq_str(up, "F7") {
            Some(Code::F7)
        } else if chars_eq_str(up, "F8") {
            Some(Code::F8)
        } else if chars_eq_str(up, "F9") {
            Some(Code::F9)
        } else if chars_eq_str(up, "F10") {
            Some(Code::F10)
        } else if chars_eq_str(up, "F11") {
            Some(Code::F11)
        } else if chars_eq_str(up, "F12") {
            Some(Code::F12)
        } else {
            None
        }
    }

    /// The display label of a key code (`KeyT` shows as `T`).
    pub open spec fn spec_key_label(code: Code) -> Seq<char> {
        match code {
            Code::KeyA => "A"@,
            Code::KeyB => "B"@,
            Code::KeyC => "C"@,
            Code::KeyD => "D"@,
            Code::KeyE => "E"@,
            Code::KeyF => "F"@,
            Code::KeyG => "G"@,
            Code::KeyH => "H"@,
            Code::KeyI => "I"@,
            Code::KeyJ => "J"@,
            Code::KeyK => "K"@,
            Code::KeyL => "L"@,
            Code::KeyM => "M"@,
            Code::KeyN => "N"@,
            Code::KeyO => "O"@,
            Code::KeyP => "P"@,
            Code::KeyQ => "Q"@,
            Code::KeyR => "R"@,
            Code::KeyS => "S"@,
            Code::KeyT => "T"@,
            Code::KeyU => "U"@,
            Code::KeyV => "V"@,
            Code::KeyW => "W"@,
            Code::KeyX => "X"@,
            Code::KeyY => "Y"@,
            Code::KeyZ => "Z"@,
            Code::Digit0 => "Digit0"@,
            Code::Digit1 => "Digit1"@,
            Code::Digit2 => "Digit2"@,
            Code::Digit3 => "Digit3"@,
            Code::Digit4 => "Digit4"@,
            Code::Digit5 => "Digit5"@,
            Code::Digit6 => "Digit6"@,
            Code::Digit7 => "Digit7"@,
            Code::Digit8 => "Digit8"@,
            Code::Digit9 => "Digit9"@,
            Code::Escape => "Escape"@,
            Code::Space => "Space"@,
            Code::Enter => "Enter"@,
            Code::Tab => "Tab"@,
            Code::Delete => "Delete"@,
            Code::F1 => "F1"@,
            Code::F2 => "F2"@,
            Code::F3 => "F3"@,
            Code::F4 => "F4"@,
            Code::F5 => "F5"@,
            Code::F6 => "F6"@,
            Code::F7 => "F7"@,
            Code::F8 => "F8"@,
            Code::F9 => "F9"@,
            Code::F10 => "F10"@,
            Code::F11 => "F11"@,
            Code::F12 => "F12"@,
        }
    }

    /// How a combo renders: `Ctrl`, `Alt`, `Shift` and the platform key in
    /// that order, joined to the key label with `+`.
    pub open spec fn spec_to_string(&self) -> Seq<char> {
        (if self.modifiers.control {
            "Ctrl+"@
        } else {
            Seq::empty()
        }) + (if self.modifiers.alt {
            "Alt+"@
        } else {
            Seq::empty()
        }) + (if self.modifiers.shift {
            "Shift+"@
        } else {
            Seq::empty()
        }) + (if self.modifiers.meta {
            "Win+"@
        } else {
            Seq::empty()
        }) + Self::spec_key_label(self.key)
    }

    fn key_label(code: Code) -> (r: &'static str)
        ensures
            r@ == Self::spec_key_label(code),
    {
        match code {
            Code::KeyA => "A",
            Code::KeyB => "B",
            Code::KeyC => "C",
            Code::KeyD => "D",
            Code::KeyE => "E",
            Code::KeyF => "F",
            Code::KeyG => "G",
            Code::KeyH => "H",
            Code::KeyI => "I",
            Code::KeyJ => "J",
            Code::KeyK => "K",
            Code::KeyL => "L",
            Code::KeyM => "M",
            Code::KeyN => "N",
            Code::KeyO => "O",
            Code::KeyP => "P",
            Code::KeyQ => "Q",
            Code::KeyR => "R",
            Code::KeyS => "S",
            Code::KeyT => "T",
            Code::KeyU => "U",
            Code::KeyV => "V",
            Code::KeyW => "W",
            Code::KeyX => "X",
            Code::KeyY => "Y",
            Code::KeyZ => "Z",
            Code::Digit0 => "Digit0",
            Code::Digit1 => "Digit1",
            Code::Digit2 => "Digit2",
            Code::Digit3 => "Digit3",
            Code::Digit4 => "Digit4",
            Code::Digit5 => "Digit5",
            Code::Digit6 => "Digit6",
            Code::Digit7 => "Digit7",
            Code::Digit8 => "Digit8",
            Code::Digit9 => "Digit9",
            Code::Escape => "Escape",
            Code::Space => "Space",
            Code::Enter => "Enter",
            Code::Tab => "Tab",
            Code::Delete => "Delete",
            Code::F1 => "F1",
            Code::F2 => "F2",
            Code::F3 => "F3",
            Code::F4 => "F4",
            Code::F5 => "F5",
            Code::F6 => "F6",
            Code::F7 => "F7",
            Code::F8 => "F8",
            Code::F9 => "F9",
            Code::F10 => "F10",
            Code::F11 => "F11",
            Code::F12 => "F12",
        }
    }

    /// Render the combo as its string form.
    pub fn to_string(&self) -> (r: String)
        ensures
            r@ == self.spec_to_string(),
    {
        let mut s: String = String::new();
        if self.modifiers.control {
            s.append("Ctrl+");
        }
        if self.modifiers.alt {
            s.append("Alt+");
        }
        if self.modifiers.shift {
            s.append("Shift+");
        }
        if self.modifiers.meta {
            s.append("Win+");
        }
        s.append(Self::key_label(self.key));
        s
    }
}

/// The system shortcuts the validator refuses on each platform.
pub open spec fn spec_system_hotkeys(p: Platform) -> Seq<KeyCombo> {
    let ctrl = Modifiers { control: true, alt: false, shift: false, meta: false };
    let alt = Modifiers { control: false, alt: true, shift: false, meta: false };
    let meta = Modifiers { control: false, alt: false, shift: false, meta: true };
    let ctrl_alt = Modifiers { control: true, alt: true, shift: false, meta: false };
    let ctrl_shift = Modifiers { control: true, alt: false, shift: true, meta: false };
    let meta_shift = Modifiers { control: false, alt: false, shift: true, meta: true };
    let meta_alt = Modifiers { control: false, alt: true, shift: false, meta: true };
    match p {
        Platform::Windows => seq![
            (KeyCombo { modifiers: alt, key: Code::Tab }),
            (KeyCombo { modifiers: alt, key: Code::F4 }),
            (KeyCombo { modifiers: ctrl_alt, key: Code::Delete }),
            (KeyCombo { modifiers: meta, key: Code::KeyL }),
            (KeyCombo { modifiers: meta, key: Code::Tab }),
            (KeyCombo { modifiers: ctrl_shift, key: Code::Escape }),
            (KeyCombo { modifiers: alt, key: Code::Escape }),
            (KeyCombo { modifiers: ctrl, key: Code::Escape }),
        ],
        Platform::MacOS => seq![
            (KeyCombo { modifiers: meta, key: Code::KeyQ }),
            (KeyCombo { modifiers: meta, key: Code::KeyW }),
            (KeyCombo { modifiers: meta, key: Code::Space }),
            (KeyCombo { modifiers: meta, key: Code::Tab }),
            (KeyCombo { modifiers: meta_shift, key: Code::Digit3 }),
            (KeyCombo { modifiers: meta_shift, key: Code::Digit4 }),
            (KeyCombo { modifiers: meta_shift, key: Code::Digit5 }),
            (KeyCombo { modifiers: meta, key: Code::KeyH }),
            (KeyCombo { modifiers: meta_alt, key: Code::Escape }),
        ],
        Platform::Linux => seq![
            (KeyCombo { modifiers: alt, key: Code::Tab }),
            (KeyCombo { modifiers: alt, key: Code::F4 }),
            (KeyCombo { modifiers: ctrl_alt, key: Code::Delete }),
            (KeyCombo { modifiers: ctrl_alt, key: Code::KeyL }),
            (KeyCombo { modifiers: ctrl_alt, key: Code::KeyT }),
            (KeyCombo { modifiers: alt, key: Code::F2 }),
        ],
    }
}

/// Reserved combinations: the bare-`Ctrl` clipboard and undo keys.
pub open spec fn spec_is_reserved(c: KeyCombo) -> bool {
    c.modifiers == (Modifiers { control: true, alt: false, shift: false, meta: false }) && (
    c.key is KeyC || c.key is KeyV || c.key is KeyX || c.key is KeyA || c.key is KeyZ
        || c.key is KeyY)
}

/// How the validator judges a combination: no modifier is too simple, a
/// platform shortcut or an already-registered combo conflicts, the bare
/// clipboard keys are reserved, everything else is valid.
pub open spec fn spec_validation(
    platform: Platform,
    registered: Seq<KeyCombo>,
    c: KeyCombo,
) -> ValidationResult {
    if c.modifiers.spec_is_empty() {
        ValidationResult::TooSimple
    } else if spec_system_hotkeys(platform).contains(c) {
        ValidationResult::SystemConflict
    } else if registered.contains(c) {
        ValidationResult::AlreadyRegistered
    } else if spec_is_reserved(c) {
        ValidationResult::Reserved
    } else {
        ValidationResult::Valid
    }
}

/// Judges hotkey combinations for one platform and remembers what has been
/// registered.
pub struct HotkeyValidator {
    platform: Platform,
    system_hotkeys: Vec<KeyCombo>,
    registered_hotkeys: Vec<KeyCombo>,
}

fn combo_list_contains(list: &Vec<KeyCombo>, c: &KeyCombo) -> (r: bool)
    ensures
        r == list@.contains(*c),
{
    let mut i: usize = 0;
    while i < list.len()
        invariant
            i <= list@.len(),
            forall|j: int| 0 <= j < i ==> list@[j] != *c,
        decreases list@.len() - i,
    {
        if list[i] == *c {
            return true;
        }
        i = i + 1;
    }
    proof {
        assert(!list@.contains(*c));
    }
    false
}

impl HotkeyValidator {
    pub closed spec fn spec_platform(&self) -> Platform {
        self.platform
    }

    pub closed spec fn spec_registered(&self) -> Seq<KeyCombo> {
        self.registered_hotkeys@
    }

    /// A validator that knows the given platform's system shortcuts and has
    /// nothing registered.
    pub fn new(platform: Platform) -> (r: HotkeyValidator)
        ensures
            r.spec_platform() == platform,
            r.spec_registered() == Seq::<KeyCombo>::empty(),
            r.wf(),
    {
        let mut system: Vec<KeyCombo> = Vec::new();
        match platform {
            Platform::Windows => {
                system.push(KeyCombo::new(Modifiers::alt(), Code::Tab));
                system.push(KeyCombo::new(Modifiers::alt(), Code::F4));
                system.push(KeyCombo::new(Modifiers::control().or(Modifiers::alt()), Code::Delete));
                system.push(KeyCombo::new(Modifiers::meta(), Code::KeyL));
                system.push(KeyCombo::new(Modifiers::meta(), Code::Tab));
                system.push(KeyCombo::new(Modifiers::control().or(Modifiers::shift()), Code::Escape));
                system.push(KeyCombo::new(Modifiers::alt(), Code::Escape));
                system.push(KeyCombo::new(Modifiers::control(), Code::Escape));
            },
            Platform::MacOS => {
                system.push(KeyCombo::new(Modifiers::meta(), Code::KeyQ));
                system.push(KeyCombo::new(Modifiers::meta(), Code::KeyW));
                system.push(KeyCombo::new(Modifiers::meta(), Code::Space));
                system.push(KeyCombo::new(Modifiers::meta(), Code::Tab));
                system.push(KeyCombo::new(Modifiers::meta().or(Modifiers::shift()), Code::Digit3));
                system.push(KeyCombo::new(Modifiers::meta().or(Modifiers::shift()), Code::Digit4));
                system.push(KeyCombo::new(Modifiers::meta().or(Modifiers::shift()), Code::Digit5));
                system.push(KeyCombo::new(Modifiers::meta(), Code::KeyH));
                system.push(KeyCombo::new(Modifiers::meta().or(Modifiers::alt()), Code::Escape));
            },
            Platform::Linux => {
                system.push(KeyCombo::new(Modifiers::alt(), Code::Tab));
                system.push(KeyCombo::new(Modifiers::alt(), Code::F4));
                system.push(KeyCombo::new(Modifiers::control().or(Modifiers::alt()), Code::Delete));
                system.push(KeyCombo::new(Modifiers::control().or(Modifiers::alt()), Code::KeyL));
                system.push(KeyCombo::new(Modifiers::control().or(Modifiers::alt()), Code::KeyT));
                system.push(KeyCombo::new(Modifiers::alt(), Code::F2));
            },
        }
        proof {
            assert(system@ =~= spec_system_hotkeys(platform));
        }
        HotkeyValidator { platform, system_hotkeys: system, registered_hotkeys: Vec::new() }
    }

    /// The system list matches the platform's.
    pub closed spec fn wf(&self) -> bool {
        self.system_hotkeys@ == spec_system_hotkeys(self.platform)
    }

    /// Judge a combination against the platform shortcuts, the registered
    /// set and the reserved keys.
    pub fn validate(&self, combo: &KeyCombo) -> (r: ValidationResult)
        requires
            self.wf(),
        ensures
            r == spec_validation(self.spec_platform(), self.spec_registered(), *combo),
    {
        if combo.modifiers.is_empty() {
            return ValidationResult::TooSimple;
        }
        if combo_list_contains(&self.system_hotkeys, combo) {
            return ValidationResult::SystemConflict;
        }
        if combo_list_contains(&self.registered_hotkeys, combo) {
            return ValidationResult::AlreadyRegistered;
        }
        if self.is_reserved(combo) {
            return ValidationResult::Reserved;
        }
        ValidationResult::Valid
    }

    fn is_reserved(&self, combo: &KeyCombo) -> (r: bool)
        ensures
            r == spec_is_reserved(*combo),
    {
        if combo.modifiers == Modifiers::control() {
            match combo.key {
                Code::KeyC => true,
                Code::KeyV => true,
                Code::KeyX => true,
                Code::KeyA => true,
                Code::KeyZ => true,
                Code::KeyY => true,
                _ => false,
            }
        } else {
            false
        }
    }

    /// Record a combination if it is valid, or say why it is not.
    pub fn register(&mut self, combo: KeyCombo) -> (r: Result<(), HotkeyValidationError>)
        requires
            old(self).wf(),
        ensures
            final(self).wf(),
            final(self).spec_platform() == old(self).spec_platform(),
            match spec_validation(old(self).spec_platform(), old(self).spec_registered(), combo) {
                ValidationResult::Valid => r is Ok && final(self).spec_registered() == old(
                    self,
                ).spec_registered().push(combo),
                ValidationResult::SystemConflict => r matches Err(
                    HotkeyValidationError::SystemConflict,
                ) && final(self).spec_registered() == old(self).spec_registered(),
                ValidationResult::AlreadyRegistered => r matches Err(
                    HotkeyValidationError::AlreadyRegistered,
                ) && final(self).spec_registered() == old(self).spec_registered(),
                ValidationResult::TooSimple => r matches Err(HotkeyValidationError::TooSimple)
                    && final(self).spec_registered() == old(self).spec_registered(),
                ValidationResult::Reserved => r matches Err(HotkeyValidationError::Reserved)
                    && final(self).spec_registered() == old(self).spec_registered(),
            },
    {
        match self.validate(&combo) {
            ValidationResult::Valid => {
                self.registered_hotkeys.push(combo);
                Ok(())
            },
            ValidationResult::SystemConflict => Err(HotkeyValidationError::SystemConflict),
            ValidationResult::AlreadyRegistered => Err(HotkeyValidationError::AlreadyRegistered),
            ValidationResult::TooSimple => Err(HotkeyValidationError::TooSimple),
            ValidationResult::Reserved => Err(HotkeyValidationError::Reserved),
        }
    }

    /// Forget every registration of a combination.
    pub fn unregister(&mut self, combo: &KeyCombo)
        requires
            old(self).wf(),
        ensures
            final(self).wf(),
            final(self).spec_platform() == old(self).spec_platform(),
            final(self).spec_registered() == combos_without(old(self).spec_registered(), *combo),
    {
        let ghost base = self.registered_hotkeys@;
        let mut kept: Vec<KeyCombo> = Vec::new();
        proof {
            assert(self.registered_hotkeys@.skip(0) =~= self.registered_hotkeys@);
            assert(kept@ + combos_without(self.registered_hotkeys@, *combo) =~= combos_without(
                base,
                *combo,
            ));
        }
        let mut i: usize = 0;
        while i < self.registered_hotkeys.len()
            invariant
                i <= self.registered_hotkeys@.len(),
                base == self.registered_hotkeys@,
                self.platform == old(self).platform,
                self.system_hotkeys == old(self).system_hotkeys,
                combos_without(base, *combo) == kept@ + combos_without(
                    self.registered_hotkeys@.skip(i as int),
                    *combo,
                ),
            decreases self.registered_hotkeys@.len() - i,
        {
            proof {
                assert(self.registered_hotkeys@.skip(i as int)[0]
                    == self.registered_hotkeys@[i as int]);
                assert(self.registered_hotkeys@.skip(i as int).drop_first()
                    =~= self.registered_hotkeys@.skip(i + 1 as int));
            }
            let c: KeyCombo = self.registered_hotkeys[i];
            if !(c == *combo) {
                let ghost before = kept@;
                kept.push(c);
                proof {
                    assert(before + (seq![c] + combos_without(
                        self.registered_hotkeys@.skip(i + 1 as int),
                        *combo,
                    )) =~= kept@ + combos_without(
                        self.registered_hotkeys@.skip(i + 1 as int),
                        *combo,
                    ));
                }
            }
            i = i + 1;
        }
        proof {
            assert(self.registered_hotkeys@.skip(self.registered_hotkeys@.len() as int) =~= Seq::<
                KeyCombo,
            >::empty());
            assert(kept@ =~= combos_without(base, *combo));
        }
        self.registered_hotkeys = kept;
    }

    /// Well-known alternative combinations that this validator would accept
    /// right now.
    pub fn suggest_alternatives(&self, combo: &KeyCombo) -> (r: Vec<KeyCombo>)
        requires
            self.wf(),
        ensures
            r@ == filter_valid(
                self.spec_platform(),
                self.spec_registered(),
                spec_alternatives(),
            ),
    {
        let mut candidates: Vec<KeyCombo> = Vec::new();
        candidates.push(KeyCombo::new(Modifiers::control().or(Modifiers::shift()), Code::KeyT));
        candidates.push(KeyCombo::new(Modifiers::control().or(Modifiers::alt()), Code::KeyT));
        candidates.push(KeyCombo::new(Modifiers::alt().or(Modifiers::shift()), Code::KeyT));
        candidates.push(KeyCombo::new(Modifiers::control().or(Modifiers::shift()), Code::KeyL));
        candidates.push(KeyCombo::new(Modifiers::control().or(Modifiers::alt()), Code::KeyL));
        candidates.push(KeyCombo::new(Modifiers::alt().or(Modifiers::shift()), Code::KeyL));
        proof {
            assert(candidates@ =~= spec_alternatives());
        }
        let ghost cands = candidates@;
        let mut r: Vec<KeyCombo> = Vec::new();
        proof {
            assert(cands.skip(0) =~= cands);
            assert(r@ + filter_valid(self.spec_platform(), self.spec_registered(), cands)
                =~= filter_valid(self.spec_platform(), self.spec_registered(), cands));
        }
        let mut i: usize = 0;
        while i < candidates.len()
            invariant
                i <= candidates@.len(),
                candidates@ == cands,
                self.wf(),
                filter_valid(self.spec_platform(), self.spec_registered(), cands) == r@
                    + filter_valid(
                    self.spec_platform(),
                    self.spec_registered(),
                    cands.skip(i as int),
                ),
            decreases candidates@.len() - i,
        {
            proof {
                assert(cands.skip(i as int)[0] == cands[i as int]);
                assert(cands.skip(i as int).drop_first() =~= cands.skip(i + 1 as int));
            }
            let c: KeyCombo = candidates[i];
            let verdict: ValidationResult = self.validate(&c);
            if verdict == ValidationResult::Valid {
                let ghost before = r@;
                r.push(c);
                proof {
                    assert(before + (seq![c] + filter_valid(
                        self.spec_platform(),
                        self.spec_registered(),
                        cands.skip(i + 1 as int),
                    )) =~= r@ + filter_valid(
                        self.spec_platform(),
                        self.spec_registered(),
                        cands.skip(i + 1 as int),
                    ));
                }
            }
            i = i + 1;
        }
        proof {
            assert(cands.skip(cands.len() as int) =~= Seq::<KeyCombo>::empty());
            assert(r@ =~= filter_valid(self.spec_platform(), self.spec_registered(), cands));
        }
        r
    }

    /// Forget every registration.
    pub fn clear_registered(&mut self)
        requires
            old(self).wf(),
        ensures
            final(self).wf(),
            final(self).spec_platform() == old(self).spec_platform(),
            final(self).spec_registered() == Seq::<KeyCombo>::empty(),
    {
        self.registered_hotkeys.clear();
    }
}

/// `s` without every occurrence of `c`, in order.
pub open spec fn combos_without(s: Seq<KeyCombo>, c: KeyCombo) -> Seq<KeyCombo>
    decreases s.len(),
{
    if s.len() == 0 {
        Seq::empty()
    } else if s[0] == c {
        combos_without(s.drop_first(), c)
    } else {
        seq![s[0]] + combos_without(s.drop_first(), c)
    }
}

/// The fixed list of suggested alternative combinations.
pub open spec fn spec_alternatives() -> Seq<KeyCombo> {
    let ctrl_shift = Modifiers { control: true, alt: false, shift: true, meta: false };
    let ctrl_alt = Modifiers { control: true, alt: true, shift: false, meta: false };
    let alt_shift = Modifiers { control: false, alt: true, shift: true, meta: false };
    seq![
        (KeyCombo { modifiers: ctrl_shift, key: Code::KeyT }),
        (KeyCombo { modifiers: ctrl_alt, key: Code::KeyT }),
        (KeyCombo { modifiers: alt_shift, key: Code::KeyT }),
        (KeyCombo { modifiers: ctrl_shift, key: Code::KeyL }),
        (KeyCombo { modifiers: ctrl_alt, key: Code::KeyL }),
        (KeyCombo { modifiers: alt_shift, key: Code::KeyL }),
    ]
}

/// The candidates of `list` that validation accepts, in order.
pub open spec fn filter_valid(
    platform: Platform,
    registered: Seq<KeyCombo>,
    list: Seq<KeyCombo>,
) -> Seq<KeyCombo>
    decreases list.len(),
{
    if list.len() == 0 {
        Seq::empty()
    } else if spec_validation(platform, registered, list[0]) is Valid {
        seq![list[0]] + filter_valid(platform, registered, list.drop_first())
    } else {
        filter_valid(platform, registered, list.drop_first())
    }
}

} // verus!
