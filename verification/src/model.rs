//! The stimulus program model: the inputs driven for one clock period,
//! the optional output check attached to a period, and the ordered
//! program of such entries.

use vstd::prelude::*;

verus! {

/// The values driven onto the circuit's input signals for one clock period.
#[derive(Debug, Clone, Copy)]
pub struct Input {
    pub reset: bool,
    pub number: u8,
    pub first: bool,
}

/// A correctness check on the circuit's two output signals, evaluated one
/// clock period after the inputs it is attached to were driven.
#[derive(Debug, Clone, Copy)]
pub struct Assert {
    pub unlock: bool,
    pub warning: bool,
}

/// One clock period of stimulus: the inputs, and zero or one output check.
#[derive(Debug, Clone, Copy)]
pub struct InputWithAsserts {
    pub input: Input,
    pub asserts: Option<Assert>,
}

/// An ordered stimulus program, one entry per clock period.
#[derive(Debug)]
pub struct InputListWithAsserts {
    pub inputs: Vec<InputWithAsserts>,
}

} // verus!
