//! Instances of classes.

use vstd::prelude::*;
use vstd::string::StringExecFns;
use crate::table::Table;
use crate::value::{LoxValue, LoxValueView};

verus! {

/// An instance: the handle and the name of its class, and its fields.
#[derive(Debug)]
pub struct LoxInstance {
    pub class: usize,
    pub class_name: String,
    pub state: Table<LoxValue>,
}

/// An instance as a mathematical value.
pub struct LoxInstanceView {
    pub class: usize,
    pub class_name: Seq<char>,
    pub state: Map<Seq<char>, LoxValueView>,
}

impl View for LoxInstance {
    type V = LoxInstanceView;

    open spec fn view(&self) -> LoxInstanceView {
        LoxInstanceView { class: self.class, class_name: self.class_name@, state: self.state@ }
    }
}

impl LoxInstanceView {
    /// The instance after its field `name` is set to `value`.
    pub open spec fn with_field(self, name: Seq<char>, value: LoxValueView) -> LoxInstanceView {
        LoxInstanceView {
            class: self.class,
            class_name: self.class_name,
            state: self.state.insert(name, value),
        }
    }
}

impl LoxInstance {
    /// A new instance of the class with the given handle and name, without
    /// fields.
    pub fn new(class: usize, class_name: String) -> (r: LoxInstance)
        ensures
            r@ == (LoxInstanceView {
                class,
                class_name: class_name@,
                state: Map::<Seq<char>, LoxValueView>::empty(),
            }),
    {
        LoxInstance { class, class_name, state: Table::new() }
    }

    /// Sets the field `name` to `value`, creating the field where the
    /// instance has none of that name.
    pub fn set(&mut self, name: &str, value: LoxValue)
        ensures
            final(self)@ == old(self)@.with_field(name@, value@),
    {
        self.state.insert(String::from_str(name), value);
    }

    /// The name of the instance's class.
    pub fn get_class_name(&self) -> (r: &str)
        ensures
            r@ == self@.class_name,
    {
        self.class_name.as_str()
    }
}

} // verus!
