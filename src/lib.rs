//! Control logic of a heater driven by an analog button ladder: the ladder's readings are
//! classified into buttons, press edges are detected, and presses and a periodic side
//! alternator update a small control state from which the output's duty value is looked up.

use vstd::prelude::*;

pub mod buttons;
pub mod control;

verus! {

} // verus!
