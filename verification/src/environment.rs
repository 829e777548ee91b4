//! Environments: one table of bindings per scope, chained to the scope that
//! encloses it. The environments of a run live side by side in one store,
//! and an environment names the one that encloses it by its handle there.

use vstd::prelude::*;
use vstd::string::StringExecFns;
use crate::table::Table;
use crate::value::{LoxValue, LoxValueView};

verus! {

/// The handle of the native clock among the function objects of a heap.
pub const CLOCK_HANDLE: usize = 0;

/// Why an environment could not serve a request.
#[derive(Debug)]
pub enum EnvironmentError {
    /// No binding of this name where one was looked for.
    UndefinedVariable(String),
}

/// One scope's bindings and the handle of the enclosing scope.
#[derive(Debug)]
pub struct Environment {
    pub values: Table<LoxValue>,
    pub enclosing: Option<usize>,
}

/// An environment as a mathematical value.
pub struct EnvironmentView {
    pub values: Map<Seq<char>, LoxValueView>,
    pub enclosing: Option<usize>,
}

impl View for Environment {
    type V = EnvironmentView;

    open spec fn view(&self) -> EnvironmentView {
        EnvironmentView { values: self.values@, enclosing: self.enclosing }
    }
}

/// A store of environments as a sequence of their views.
pub open spec fn store_view(store: Seq<Environment>) -> Seq<EnvironmentView> {
    Seq::new(store.len(), |i: int| store[i]@)
}

/// The environment reached from `from` by walking `distance` enclosing
/// links, if the chain is that long.
pub open spec fn ancestor_of(store: Seq<EnvironmentView>, from: usize, distance: nat) -> Option<
    usize,
>
    decreases distance,
{
    if from >= store.len() {
        None
    } else if distance == 0 {
        Some(from)
    } else {
        match store[from as int].enclosing {
            Some(parent) => ancestor_of(store, parent, (distance - 1) as nat),
            None => None,
        }
    }
}

/// The value of `key` in the environment `distance` links out from `from`.
pub open spec fn value_at(
    store: Seq<EnvironmentView>,
    from: usize,
    key: Seq<char>,
    distance: nat,
) -> Option<LoxValueView> {
    match ancestor_of(store, from, distance) {
        Some(target) => if store[target as int].values.contains_key(key) {
            Some(store[target as int].values[key])
        } else {
            None
        },
        None => None,
    }
}

/// Whether an assignment to `key`, `distance` links out from `from`, finds
/// a binding to overwrite.
pub open spec fn assignable_at(
    store: Seq<EnvironmentView>,
    from: usize,
    key: Seq<char>,
    distance: nat,
) -> bool {
    value_at(store, from, key, distance) is Some
}

/// The store after the environment `target` binds `key` to `value`.
pub open spec fn store_with(
    store: Seq<EnvironmentView>,
    target: usize,
    key: Seq<char>,
    value: LoxValueView,
) -> Seq<EnvironmentView> {
    if target < store.len() {
        store.update(
            target as int,
            EnvironmentView {
                values: store[target as int].values.insert(key, value),
                enclosing: store[target as int].enclosing,
            },
        )
    } else {
        store
    }
}

/// The store after an assignment to `key`, `distance` links out from
/// `from`: unchanged where there is no binding to overwrite.
pub open spec fn store_assigned(
    store: Seq<EnvironmentView>,
    from: usize,
    key: Seq<char>,
    value: LoxValueView,
    distance: nat,
) -> Seq<EnvironmentView> {
    if assignable_at(store, from, key, distance) {
        store_with(store, ancestor_of(store, from, distance).unwrap(), key, value)
    } else {
        store
    }
}

/// The bindings that every run starts with: the native clock.
pub open spec fn global_bindings() -> Map<Seq<char>, LoxValueView> {
    Map::<Seq<char>, LoxValueView>::empty().insert("clock"@, LoxValueView::Func(CLOCK_HANDLE))
}

impl Environment {
    /// An empty environment that nothing encloses.
    pub fn new() -> (r: Environment)
        ensures
            r@.values == Map::<Seq<char>, LoxValueView>::empty(),
            r@.enclosing is None,
    {
        Environment { values: Table::new(), enclosing: None }
    }

    /// The global environment: nothing encloses it, and it binds the native
    /// functions.
    pub fn global() -> (r: Environment)
        ensures
            r@.values == global_bindings(),
            r@.enclosing is None,
    {
        let mut env = Environment::new();
        env.define(String::from_str("clock"), LoxValue::Func(CLOCK_HANDLE));
        env
    }

    /// An empty environment enclosed by `parent`.
    pub fn from_parent(parent: usize) -> (r: Environment)
        ensures
            r@.values == Map::<Seq<char>, LoxValueView>::empty(),
            r@.enclosing == Some(parent),
    {
        Environment { values: Table::new(), enclosing: Some(parent) }
    }

    /// Binds `key` to `val` in this scope, shadowing any binding of `key`
    /// in an enclosing scope and replacing one in this scope.
    pub fn define(&mut self, key: String, val: LoxValue)
        ensures
            final(self)@.values == old(self)@.values.insert(key@, val@),
            final(self)@.enclosing == old(self)@.enclosing,
    {
        self.values.insert(key, val);
    }

    /// Overwrites the binding of `key` in this scope; an error, and no
    /// change, where this scope does not bind `key`.
    pub fn assign(&mut self, key: &String, val: LoxValue) -> (r: Result<(), EnvironmentError>)
        ensures
            old(self)@.values.contains_key(key@) ==> r is Ok && final(self)@.values == old(
                self,
            )@.values.insert(key@, val@),
            !old(self)@.values.contains_key(key@) ==> r == Err::<(), EnvironmentError>(
                EnvironmentError::UndefinedVariable(*key),
            ) && final(self)@ == old(self)@,
            final(self)@.enclosing == old(self)@.enclosing,
    {
        if self.values.contains_key(key.as_str()) {
            self.values.insert(key.clone(), val);
            Ok(())
        } else {
            Err(EnvironmentError::UndefinedVariable(key.clone()))
        }
    }

    /// The value that this scope binds `key` to.
    pub fn get(&self, key: &String) -> (r: Result<LoxValue, EnvironmentError>)
        ensures
            self@.values.contains_key(key@) ==> r is Ok && r->Ok_0@ == self@.values[key@],
            !self@.values.contains_key(key@) ==> r == Err::<LoxValue, EnvironmentError>(
                EnvironmentError::UndefinedVariable(*key),
            ),
    {
        match self.values.get(key.as_str()) {
            Some(value) => Ok(value.clone()),
            None => Err(EnvironmentError::UndefinedVariable(key.clone())),
        }
    }

    /// The handle of the environment `distance` enclosing links out from
    /// `from`, if the chain is that long.
    pub fn ancestor(store: &Vec<Environment>, from: usize, distance: usize) -> (r: Option<usize>)
        ensures
            r == ancestor_of(store_view(store@), from, distance as nat),
            r matches Some(target) ==> target < store@.len(),
    {
        let mut current: usize = from;
        let mut left: usize = distance;
        loop
            invariant
                ancestor_of(store_view(store@), from, distance as nat) == ancestor_of(
                    store_view(store@),
                    current,
                    left as nat,
                ),
            decreases left,
        {
            if current >= store.len() {
                return None;
            }
            if left == 0 {
                return Some(current);
            }
            match store[current].enclosing {
                Some(parent) => {
                    current = parent;
                    left = left - 1;
                },
                None => {
                    return None;
                },
            }
        }
    }

    /// Reads `key` in the environment `distance` links out from `from`.
    pub fn get_at(store: &Vec<Environment>, from: usize, key: &String, distance: usize) -> (r:
        Result<LoxValue, EnvironmentError>)
        ensures
            match value_at(store_view(store@), from, key@, distance as nat) {
                Some(value) => r is Ok && r->Ok_0@ == value,
                None => r == Err::<LoxValue, EnvironmentError>(
                    EnvironmentError::UndefinedVariable(*key),
                ),
            },
    {
        match Environment::ancestor(store, from, distance) {
            Some(target) => store[target].get(key),
            None => Err(EnvironmentError::UndefinedVariable(key.clone())),
        }
    }

    /// Overwrites the binding of `key` in the environment `distance` links
    /// out from `from`; an error, and no change, where that environment
    /// does not exist or does not bind `key`.
    pub fn assign_at(
        store: &mut Vec<Environment>,
        from: usize,
        key: &String,
        val: LoxValue,
        distance: usize,
    ) -> (r: Result<(), EnvironmentError>)
        ensures
            store_view(final(store)@) == store_assigned(
                store_view(old(store)@),
                from,
                key@,
                val@,
                distance as nat,
            ),
            assignable_at(store_view(old(store)@), from, key@, distance as nat) ==> r is Ok,
            !assignable_at(store_view(old(store)@), from, key@, distance as nat) ==> r == Err::<
                (),
                EnvironmentError,
            >(EnvironmentError::UndefinedVariable(*key)),
    {
        match Environment::ancestor(store, from, distance) {
            Some(target) => {
                let r = store[target].assign(key, val);
                assert(store_view(store@) =~= store_assigned(
                    store_view(old(store)@),
                    from,
                    key@,
                    val@,
                    distance as nat,
                ));
                r
            },
            None => Err(EnvironmentError::UndefinedVariable(key.clone())),
        }
    }
}

} // verus!
