//! The data the hotkey listener works with: the events a pressed hotkey
//! raises, the listener's errors, and the fallback combinations tried when
//! the configured one cannot be registered. The listener itself registers
//! combinations with the operating system and lives outside the library.

use vstd::prelude::*;

use crate::hotkeys::validator::Code;
use crate::hotkeys::validator::KeyCombo;
use crate::hotkeys::validator::Modifiers;

verus! {

/// What went wrong while registering or driving hotkeys.
#[derive(Debug, Clone)]
pub enum HotkeyError {
    RegistrationError(String),
    ConflictError,
    InvalidFormat(String),
    ManagerError(String),
}

/// What a pressed hotkey asks for.
#[derive(Debug, Clone)]
pub enum HotkeyEvent {
    Translate,
    Cancel,
    Custom(String),
}

/// The combinations tried, in order, when the configured hotkey cannot be
/// registered.
pub open spec fn spec_fallback_hotkeys() -> Seq<KeyCombo> {
    let ctrl_shift = Modifiers { control: true, alt: false, shift: true, meta: false };
    let ctrl_alt = Modifiers { control: true, alt: true, shift: false, meta: false };
    let alt_shift = Modifiers { control: false, alt: true, shift: true, meta: false };
    seq![
        (KeyCombo { modifiers: ctrl_shift, key: Code::KeyT }),
        (KeyCombo { modifiers: ctrl_alt, key: Code::KeyT }),
        (KeyCombo { modifiers: alt_shift, key: Code::KeyT }),
    ]
}

/// The fallback combinations, in the order they are tried.
pub fn fallback_hotkeys() -> (r: Vec<KeyCombo>)
    ensures
        r@ == spec_fallback_hotkeys(),
{
    let mut r: Vec<KeyCombo> = Vec::new();
    r.push(KeyCombo::new(Modifiers::control().or(Modifiers::shift()), Code::KeyT));
    r.push(KeyCombo::new(Modifiers::control().or(Modifiers::alt()), Code::KeyT));
    r.push(KeyCombo::new(Modifiers::alt().or(Modifiers::shift()), Code::KeyT));
    proof {
        assert(r@ =~= spec_fallback_hotkeys());
    }
    r
}

} // verus!
