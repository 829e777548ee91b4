//! The heap of a run: the environments, function objects, classes and
//! instances that values refer to by handle. Objects are added at the end
//! and never removed, so a handle stays valid once it is given out.

use vstd::prelude::*;
use vstd::string::StringExecFns;
use crate::callables::{Callable, ClockFunc, LoxFunc};
use crate::environment::{global_bindings, store_view, Environment, EnvironmentView};
use crate::errors::{Fault, RuntimeError};
use crate::lox_class::{LoxClass, LoxClassView};
use crate::lox_instance::{LoxInstance, LoxInstanceView};
use crate::number_text::number_text;
use crate::token::Token;
use crate::value::{LoxValue, LoxValueView};

verus! {

/// The objects of a run.
#[derive(Debug)]
pub struct Heap {
    pub environments: Vec<Environment>,
    pub functions: Vec<Callable>,
    pub classes: Vec<LoxClass>,
    pub instances: Vec<LoxInstance>,
}

/// A heap as a mathematical value.
pub struct HeapView {
    pub environments: Seq<EnvironmentView>,
    pub functions: Seq<Callable>,
    pub classes: Seq<LoxClassView>,
    pub instances: Seq<LoxInstanceView>,
}

impl View for Heap {
    type V = HeapView;

    open spec fn view(&self) -> HeapView {
        HeapView {
            environments: store_view(self.environments@),
            functions: self.functions@,
            classes: Seq::new(self.classes@.len(), |i: int| self.classes@[i]@),
            instances: Seq::new(self.instances@.len(), |i: int| self.instances@[i]@),
        }
    }
}

/// The environment that binding a method makes: it binds `this` to the
/// instance and is enclosed by the method's own closure.
pub open spec fn this_environment(closure: usize, instance: usize) -> EnvironmentView {
    EnvironmentView {
        values: Map::<Seq<char>, LoxValueView>::empty().insert(
            "this"@,
            LoxValueView::Instance(instance),
        ),
        enclosing: Some(closure),
    }
}

/// The heap that every run starts with: the global environment under
/// handle 0 and the native clock as function object 0.
pub open spec fn initial_heap() -> HeapView {
    HeapView {
        environments: seq![EnvironmentView { values: global_bindings(), enclosing: None }],
        functions: seq![Callable::Native(ClockFunc {  })],
        classes: Seq::empty(),
        instances: Seq::empty(),
    }
}

impl HeapView {
    /// The heap with one more environment.
    pub open spec fn with_environment(self, environment: EnvironmentView) -> HeapView {
        HeapView { environments: self.environments.push(environment), ..self }
    }

    /// The heap with one more function object.
    pub open spec fn with_function(self, function: Callable) -> HeapView {
        HeapView { functions: self.functions.push(function), ..self }
    }

    /// The heap with one more class.
    pub open spec fn with_class(self, class: LoxClassView) -> HeapView {
        HeapView { classes: self.classes.push(class), ..self }
    }

    /// The heap with one more instance.
    pub open spec fn with_instance(self, instance: LoxInstanceView) -> HeapView {
        HeapView { instances: self.instances.push(instance), ..self }
    }

    /// The heap with other environments in place of its own.
    pub open spec fn with_environments(self, environments: Seq<EnvironmentView>) -> HeapView {
        HeapView { environments, ..self }
    }

    /// The heap after the field `name` of `instance` is set to `value`;
    /// unchanged where the heap holds no such instance.
    pub open spec fn with_field(self, instance: usize, name: Seq<char>, value: LoxValueView)
        -> HeapView {
        if instance < self.instances.len() {
            HeapView {
                instances: self.instances.update(
                    instance as int,
                    self.instances[instance as int].with_field(name, value),
                ),
                ..self
            }
        } else {
            self
        }
    }

    /// The function that a method table binds `name` to, if it binds it to
    /// a function of the program.
    pub open spec fn method_in(self, methods: Map<Seq<char>, LoxValueView>, name: Seq<char>)
        -> Option<LoxFunc> {
        if methods.contains_key(name) {
            match methods[name] {
                LoxValueView::Func(handle) => if handle < self.functions.len() {
                    match self.functions[handle as int] {
                        Callable::Function(function) => Some(function),
                        Callable::Native(_) => None,
                    }
                } else {
                    None
                },
                _ => None,
            }
        } else {
            None
        }
    }

    /// The method `name` of `class`: the class's own where it has one of
    /// that name, else that of its superclass, and so on up the chain.
    pub open spec fn method_of(self, class: usize, name: Seq<char>) -> Option<LoxFunc>
        decreases class,
    {
        if class >= self.classes.len() {
            None
        } else if self.classes[class as int].methods.contains_key(name) {
            self.method_in(self.classes[class as int].methods, name)
        } else {
            match self.classes[class as int].superclass {
                Some(superclass) => if superclass < class {
                    self.method_of(superclass, name)
                } else {
                    None
                },
                None => None,
            }
        }
    }

    /// The function that a method becomes when it is bound to an instance
    /// in this heap: the same declaration, closed over a new environment.
    pub open spec fn bound(self, method: LoxFunc, instance: usize) -> LoxFunc {
        LoxFunc {
            declaration: method.declaration,
            closure: self.environments.len() as usize,
            is_initializer: method.is_initializer,
        }
    }

    /// The heap after a method is bound to an instance in it.
    pub open spec fn after_bind(self, method: LoxFunc, instance: usize) -> HeapView {
        self.with_environment(this_environment(method.closure, instance))
    }

    /// The heap after a method is bound to an instance and the bound
    /// function is stored as a function object of its own.
    pub open spec fn after_bind_stored(self, method: LoxFunc, instance: usize) -> HeapView {
        self.after_bind(method, instance).with_function(
            Callable::Function(self.bound(method, instance)),
        )
    }

    /// The heap after the property `name` of `instance` is read: a read of
    /// a method binds it, a read of a field changes nothing.
    pub open spec fn after_property(self, instance: usize, name: Seq<char>) -> HeapView {
        if instance >= self.instances.len() {
            self
        } else if self.instances[instance as int].state.contains_key(name) {
            self
        } else {
            match self.method_of(self.instances[instance as int].class, name) {
                Some(method) => self.after_bind_stored(method, instance),
                None => self,
            }
        }
    }

    /// The value of the property `name` of `instance`: the field of that
    /// name where the instance has one, else the class's method of that
    /// name bound to the instance.
    pub open spec fn property(self, instance: usize, name: Token) -> Result<
        LoxValueView,
        RuntimeError,
    > {
        if instance >= self.instances.len() {
            Err(RuntimeError::InternalError(Fault::DanglingInstance))
        } else if self.instances[instance as int].state.contains_key(name.lexeme@) {
            Ok(self.instances[instance as int].state[name.lexeme@])
        } else {
            match self.method_of(self.instances[instance as int].class, name.lexeme@) {
                Some(method) => Ok(LoxValueView::Func(self.functions.len() as usize)),
                None => Err(RuntimeError::UndefinedProperty(name)),
            }
        }
    }

    /// The number of arguments that a call of `class` must pass: as many as
    /// its `init` method takes, its own or inherited, none where it has no
    /// such method.
    pub open spec fn class_arity(self, class: usize) -> nat {
        match self.method_of(class, "init"@) {
            Some(function) => function.declaration.params@.len(),
            None => 0,
        }
    }

    /// The text that a value prints as.
    pub open spec fn display(self, value: LoxValueView) -> Seq<char> {
        match value {
            LoxValueView::Number(bits) => number_text(bits),
            LoxValueView::String(text) => text,
            LoxValueView::Bool(b) => if b {
                "true"@
            } else {
                "false"@
            },
            LoxValueView::Func(_) => "func"@,
            LoxValueView::Class(handle) => if handle < self.classes.len() {
                "class <"@ + self.classes[handle as int].name + ">"@
            } else {
                "class <>"@
            },
            LoxValueView::Instance(handle) => if handle < self.instances.len() {
                "instance of <"@ + self.instances[handle as int].class_name + ">"@
            } else {
                "instance of <>"@
            },
            LoxValueView::Nil => "nil"@,
        }
    }
}

impl Heap {
    /// The heap that every run starts with.
    pub fn new() -> (r: Heap)
        ensures
            r@ == initial_heap(),
    {
        let mut environments: Vec<Environment> = Vec::new();
        environments.push(Environment::global());
        let mut functions: Vec<Callable> = Vec::new();
        functions.push(Callable::Native(ClockFunc::new()));
        let r = Heap { environments, functions, classes: Vec::new(), instances: Vec::new() };
        proof {
            assert(r@.environments =~= initial_heap().environments);
            assert(r@.functions =~= initial_heap().functions);
            assert(r@.classes =~= initial_heap().classes);
            assert(r@.instances =~= initial_heap().instances);
        }
        r
    }

    /// Adds an environment and returns its handle.
    pub fn add_environment(&mut self, environment: Environment) -> (handle: usize)
        ensures
            final(self)@ == old(self)@.with_environment(environment@),
            handle == old(self)@.environments.len(),
    {
        let handle = self.environments.len();
        self.environments.push(environment);
        proof {
            assert(self@.environments =~= old(self)@.environments.push(environment@));
            assert(self@.classes =~= old(self)@.classes);
            assert(self@.instances =~= old(self)@.instances);
        }
        handle
    }

    /// Adds a function object and returns its handle.
    pub fn add_function(&mut self, function: Callable) -> (handle: usize)
        ensures
            final(self)@ == old(self)@.with_function(function),
            handle == old(self)@.functions.len(),
    {
        let handle = self.functions.len();
        self.functions.push(function);
        proof {
            assert(self@.environments =~= old(self)@.environments);
            assert(self@.classes =~= old(self)@.classes);
            assert(self@.instances =~= old(self)@.instances);
        }
        handle
    }

    /// Adds a class and returns its handle.
    pub fn add_class(&mut self, class: LoxClass) -> (handle: usize)
        ensures
            final(self)@ == old(self)@.with_class(class@),
            handle == old(self)@.classes.len(),
    {
        let handle = self.classes.len();
        self.classes.push(class);
        proof {
            assert(self@.environments =~= old(self)@.environments);
            assert(self@.classes =~= old(self)@.classes.push(class@));
            assert(self@.instances =~= old(self)@.instances);
        }
        handle
    }

    /// Adds an instance and returns its handle.
    pub fn add_instance(&mut self, instance: LoxInstance) -> (handle: usize)
        ensures
            final(self)@ == old(self)@.with_instance(instance@),
            handle == old(self)@.instances.len(),
    {
        let handle = self.instances.len();
        self.instances.push(instance);
        proof {
            assert(self@.environments =~= old(self)@.environments);
            assert(self@.classes =~= old(self)@.classes);
            assert(self@.instances =~= old(self)@.instances.push(instance@));
        }
        handle
    }

    /// Sets the field `name` of `instance` to `value`. Returns whether the
    /// heap holds the instance; where it does not, nothing changes.
    pub fn set_field(&mut self, instance: usize, name: &str, value: LoxValue) -> (found: bool)
        ensures
            final(self)@ == old(self)@.with_field(instance, name@, value@),
            found == (instance < old(self)@.instances.len()),
    {
        if instance < self.instances.len() {
            self.instances[instance].set(name, value);
            proof {
                assert(self@.environments =~= old(self)@.environments);
                assert(self@.classes =~= old(self)@.classes);
                assert(self@.instances =~= old(self)@.with_field(
                    instance,
                    name@,
                    value@,
                ).instances);
            }
            true
        } else {
            false
        }
    }

    /// The function that `class` itself binds `name` to.
    fn own_method(&self, class: usize, name: &str) -> (r: Option<LoxFunc>)
        requires
            class < self@.classes.len(),
        ensures
            r == self@.method_in(self@.classes[class as int].methods, name@),
    {
        match self.classes[class].methods.get(name) {
            Some(LoxValue::Func(handle)) => {
                if *handle < self.functions.len() {
                    match &self.functions[*handle] {
                        Callable::Function(function) => Some(function.clone()),
                        Callable::Native(_) => None,
                    }
                } else {
                    None
                }
            },
            _ => None,
        }
    }

    /// The method `name` of `class`, its own or inherited, not yet bound.
    pub fn lookup_method(&self, class: usize, name: &str) -> (r: Option<LoxFunc>)
        ensures
            r == self@.method_of(class, name@),
    {
        let mut current: usize = class;
        loop
            invariant
                self@.method_of(class, name@) == self@.method_of(current, name@),
            decreases current,
        {
            if current >= self.classes.len() {
                return None;
            }
            if self.classes[current].methods.contains_key(name) {
                return self.own_method(current, name);
            }
            match self.classes[current].superclass {
                Some(superclass) => {
                    if superclass < current {
                        current = superclass;
                    } else {
                        return None;
                    }
                },
                None => {
                    return None;
                },
            }
        }
    }

    /// The number of arguments that a call of `class` must pass.
    pub fn class_arity(&self, class: usize) -> (r: usize)
        ensures
            r == self@.class_arity(class),
    {
        match self.lookup_method(class, "init") {
            Some(function) => function.arity(),
            None => 0,
        }
    }

    /// Binds `method` to `instance` and stores the bound function as a
    /// function object of its own; returns the function value.
    pub fn bind_stored(&mut self, method: &LoxFunc, instance: usize) -> (r: LoxValue)
        ensures
            final(self)@ == old(self)@.after_bind_stored(*method, instance),
            r == LoxValue::Func(old(self)@.functions.len() as usize),
    {
        let bound = method.bind(instance, self);
        let handle = self.add_function(Callable::Function(bound));
        LoxValue::Func(handle)
    }

    /// The text that a value prints as.
    pub fn display(&self, value: &LoxValue) -> (r: String)
        ensures
            r@ == self@.display(value@),
    {
        match value {
            LoxValue::Number(number) => number.to_text(),
            LoxValue::String(text) => text.clone(),
            LoxValue::Bool(b) => {
                if *b {
                    String::from_str("true")
                } else {
                    String::from_str("false")
                }
            },
            LoxValue::Func(_) => String::from_str("func"),
            LoxValue::Class(handle) => {
                if *handle < self.classes.len() {
                    let mut out = String::from_str("class <");
                    out.append(self.classes[*handle].get_name());
                    out.append(">");
                    out
                } else {
                    String::from_str("class <>")
                }
            },
            LoxValue::Instance(handle) => {
                if *handle < self.instances.len() {
                    let mut out = String::from_str("instance of <");
                    out.append(self.instances[*handle].get_class_name());
                    out.append(">");
                    out
                } else {
                    String::from_str("instance of <>")
                }
            },
            LoxValue::Nil => String::from_str("nil"),
        }
    }
}

impl LoxFunc {
    /// The function bound to an instance: the same declaration, closed over
    /// a new environment that binds `this` to the instance and is enclosed
    /// by this function's closure.
    pub fn bind(&self, instance: usize, heap: &mut Heap) -> (r: LoxFunc)
        ensures
            final(heap)@ == old(heap)@.after_bind(*self, instance),
            r == old(heap)@.bound(*self, instance),
    {
        let mut env = Environment::from_parent(self.closure);
        env.define(String::from_str("this"), LoxValue::Instance(instance));
        let closure = heap.add_environment(env);
        LoxFunc {
            declaration: crate::callables::share(&self.declaration),
            closure,
            is_initializer: self.is_initializer,
        }
    }
}

impl LoxClass {
    /// The method `name` of `class`, its own or inherited, bound to
    /// `instance`; `None`, and no change to the heap, where there is none.
    pub fn find_method(heap: &mut Heap, class: usize, name: &str, instance: usize) -> (r: Option<
        LoxFunc,
    >)
        ensures
            match old(heap)@.method_of(class, name@) {
                Some(method) => final(heap)@ == old(heap)@.after_bind(method, instance) && r
                    == Some(old(heap)@.bound(method, instance)),
                None => final(heap)@ == old(heap)@ && r is None,
            },
    {
        match heap.lookup_method(class, name) {
            Some(method) => Some(method.bind(instance, heap)),
            None => None,
        }
    }
}

impl LoxInstance {
    /// Reads the property `name` of `instance`: the field of that name
    /// where the instance has one, else the class's method of that name,
    /// bound to the instance.
    pub fn get(heap: &mut Heap, instance: usize, name: &Token) -> (r: Result<
        LoxValue,
        RuntimeError,
    >)
        ensures
            final(heap)@ == old(heap)@.after_property(instance, name.lexeme@),
            crate::errors::value_outcome(r) == old(heap)@.property(instance, *name),
    {
        if instance >= heap.instances.len() {
            return Err(RuntimeError::InternalError(Fault::DanglingInstance));
        }
        match heap.instances[instance].state.get(name.lexeme.as_str()) {
            Some(value) => {
                return Ok(value.clone());
            },
            None => {},
        }
        let class = heap.instances[instance].class;
        match heap.lookup_method(class, name.lexeme.as_str()) {
            Some(method) => Ok(heap.bind_stored(&method, instance)),
            None => Err(RuntimeError::UndefinedProperty(name.clone())),
        }
    }
}

} // verus!
