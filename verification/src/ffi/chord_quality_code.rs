//! Chord quality integer codes used by the C interface.

use vstd::prelude::*;

verus! {

pub const MAJOR: u8 = 0;
pub const MINOR: u8 = 1;
pub const DOMINANT7: u8 = 2;
pub const MAJOR7: u8 = 3;
pub const MINOR7: u8 = 4;
pub const DIMINISHED: u8 = 5;
pub const AUGMENTED: u8 = 6;
pub const SUS2: u8 = 7;
pub const SUS4: u8 = 8;
pub const POWER: u8 = 9;

} // verus!
