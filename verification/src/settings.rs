//! Settings a front-end hands to the interpreter.

use vstd::prelude::*;

verus! {

/// Settings for one interpreter instance.
pub struct InterpreterSettings {
    /// The number of cells on the data band.
    pub data_tape_sz: usize,
}

impl InterpreterSettings {
    pub fn new(data_tape_sz: usize) -> (r: InterpreterSettings)
        ensures
            r.data_tape_sz == data_tape_sz,
    {
        InterpreterSettings { data_tape_sz }
    }
}

impl Default for InterpreterSettings {
    /// Settings asking for the default tape size.
    fn default() -> (r: Self)
        ensures
            r.data_tape_sz == crate::DEFAULT_TAPE_SIZE,
    {
        Self { data_tape_sz: crate::DEFAULT_TAPE_SIZE }
    }
}

} // verus!
