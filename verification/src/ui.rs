//! Data a terminal front-end keeps while it renders an interpreter.  The
//! drawing itself lives with the front-end; the library only holds the
//! borrowed interpreter the panes would show.

use vstd::prelude::*;

use crate::interpreter::Interpreter;

verus! {

/// Holds data used by the UI.
pub struct Ui<'a> {
    interpreter: &'a Interpreter,
}

impl<'a> Ui<'a> {
    /// The interpreter the UI renders.
    pub closed spec fn spec_interpreter(self) -> &'a Interpreter {
        self.interpreter
    }

    /// Constructs a new Ui struct. This does not draw anything by itself.
    pub fn new(interpreter: &'a Interpreter) -> (r: Ui<'a>)
        ensures
            r.spec_interpreter() == interpreter,
    {
        Ui { interpreter }
    }
}

} // verus!
