//! What can be called: functions declared in the program and the native
//! clock. (A class can be called too; it is a heap object of its own.)

use vstd::prelude::*;
use std::rc::Rc;
use crate::stmt::Function;

verus! {

/// Calls `Rc::clone`, which makes another pointer to the same allocation:
/// the result holds the very value that the argument holds.
#[verifier::external_body]
pub(crate) fn share(declaration: &Rc<Function>) -> (r: Rc<Function>)
    ensures
        r == *declaration,
{
    Rc::clone(declaration)
}

/// A function of the program as a runtime object: its declaration, the
/// environment that was current where it was declared, and whether it is a
/// class's initializer.
#[derive(Debug)]
pub struct LoxFunc {
    pub declaration: Rc<Function>,
    pub closure: usize,
    pub is_initializer: bool,
}

impl Clone for LoxFunc {
    fn clone(&self) -> (r: LoxFunc)
        ensures
            r == *self,
    {
        LoxFunc {
            declaration: share(&self.declaration),
            closure: self.closure,
            is_initializer: self.is_initializer,
        }
    }
}

impl LoxFunc {
    /// The function object of a declaration met in the environment
    /// `closure`.
    pub fn new(declaration: Rc<Function>, closure: usize, is_initializer: bool) -> (r: LoxFunc)
        ensures
            r == (LoxFunc { declaration, closure, is_initializer }),
    {
        LoxFunc { declaration, closure, is_initializer }
    }

    /// The number of arguments that a call must pass.
    pub fn arity(&self) -> (r: usize)
        ensures
            r == self.declaration.params@.len(),
    {
        self.declaration.params.len()
    }
}

/// The native function `clock`, which reads the time.
#[derive(Debug, Clone, Copy, PartialEq, Eq, Structural)]
pub struct ClockFunc {}

impl ClockFunc {
    /// The clock.
    pub fn new() -> (r: ClockFunc)
        ensures
            r == (ClockFunc {  }),
    {
        ClockFunc {  }
    }

    /// The clock takes no arguments.
    pub fn arity(&self) -> (r: usize)
        ensures
            r == 0,
    {
        0
    }
}

/// A function object of the heap: declared in the program, or native.
#[derive(Debug)]
pub enum Callable {
    Function(LoxFunc),
    Native(ClockFunc),
}

impl Callable {
    /// The number of arguments that a call must pass.
    pub open spec fn arity_of(self) -> nat {
        match self {
            Callable::Function(function) => function.declaration.params@.len(),
            Callable::Native(_) => 0,
        }
    }

    /// The number of arguments that a call must pass.
    pub fn arity(&self) -> (r: usize)
        ensures
            r == self.arity_of(),
    {
        match self {
            Callable::Function(function) => function.arity(),
            Callable::Native(clock) => clock.arity(),
        }
    }
}

} // verus!
