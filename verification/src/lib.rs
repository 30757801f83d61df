//! Building blocks for a keyboard firmware: a matrix debouncer, a chord
//! recognizer, a layered layout engine with hold/tap disambiguation and
//! key-macro sequences, and a boot-protocol HID report builder.

pub mod action;
pub mod chording;
pub mod combo;
pub mod debounce;
pub mod key_code;
pub mod keyboard;
pub mod layout;

use vstd::prelude::*;

verus! {

} // verus!
