//! Classes.

use vstd::prelude::*;
use crate::errors::RuntimeError;
use crate::lox_instance::{LoxInstance, LoxInstanceView};
use crate::table::Table;
use crate::value::{LoxValue, LoxValueView};

verus! {

/// A class: its name, the handle of its superclass where it has one, and
/// its methods, each a function value.
#[derive(Debug)]
pub struct LoxClass {
    pub name: String,
    pub superclass: Option<usize>,
    pub methods: Table<LoxValue>,
}

/// A class as a mathematical value.
pub struct LoxClassView {
    pub name: Seq<char>,
    pub superclass: Option<usize>,
    pub methods: Map<Seq<char>, LoxValueView>,
}

impl View for LoxClass {
    type V = LoxClassView;

    open spec fn view(&self) -> LoxClassView {
        LoxClassView { name: self.name@, superclass: self.superclass, methods: self.methods@ }
    }
}

impl LoxClass {
    /// A class made of the three parts given.
    pub fn new(name: String, superclass: Option<usize>, methods: Table<LoxValue>) -> (r: LoxClass)
        ensures
            r@ == (LoxClassView { name: name@, superclass, methods: methods@ }),
    {
        LoxClass { name, superclass, methods }
    }

    /// A new instance of this class, which the heap holds under `handle`.
    /// Never fails.
    pub fn instantiate(&self, handle: usize) -> (r: Result<LoxInstance, RuntimeError>)
        ensures
            r matches Ok(instance) && instance@ == (LoxInstanceView {
                class: handle,
                class_name: self@.name,
                state: Map::<Seq<char>, LoxValueView>::empty(),
            }),
    {
        Ok(LoxInstance::new(handle, self.name.clone()))
    }

    /// The class's name.
    pub fn get_name(&self) -> (r: &str)
        ensures
            r@ == self@.name,
    {
        self.name.as_str()
    }
}

} // verus!
