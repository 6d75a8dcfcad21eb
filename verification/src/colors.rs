//! Colour pair identifiers attached to terrain tiles.

use vstd::prelude::*;

verus! {

pub const PAIR_WHITE: i16 = 0;

pub const PAIR_GREEN: i16 = 1;

pub const PAIR_YELLOW: i16 = 2;

pub const PAIR_RED: i16 = 3;

pub const PAIR_BLUE: i16 = 4;

} // verus!
