//! Laws of the runtime model: what holds of variables, closures,
//! properties and identity for every heap and every value.

use vstd::prelude::*;
use crate::callables::LoxFunc;
use crate::environment::{
    ancestor_of, assignable_at, store_assigned, store_with, value_at, EnvironmentView,
};
use crate::errors::RuntimeError;
use crate::heap::HeapView;

use crate::semantics::{call_value, read_variable, InterpreterView};
use crate::token::Token;
use crate::value::{values_equal, CallableHandle, LoxValueView};

verus! {

/// Binding a name in one environment leaves every chain of enclosing
/// environments as it was.
pub proof fn law_binding_keeps_chains(
    store: Seq<EnvironmentView>,
    target: usize,
    key: Seq<char>,
    value: LoxValueView,
    from: usize,
    distance: nat,
)
    ensures
        ancestor_of(store_with(store, target, key, value), from, distance) == ancestor_of(
            store,
            from,
            distance,
        ),
    decreases distance,
{
    if from < store.len() && distance > 0 {
        match store[from as int].enclosing {
            Some(parent) => {
                law_binding_keeps_chains(store, target, key, value, parent, (distance - 1) as nat);
            },
            None => {},
        }
    }
}

/// A variable that is declared can be read: after a name is bound in an
/// environment, a read of the name in that environment yields the value
/// bound.
pub proof fn law_read_after_define(
    store: Seq<EnvironmentView>,
    env: usize,
    key: Seq<char>,
    value: LoxValueView,
)
    requires
        env < store.len(),
    ensures
        value_at(store_with(store, env, key, value), env, key, 0) == Some(value),
{
}

/// A variable read returns the value assigned last: after an assignment
/// that finds its binding at the resolved distance, a read at the same
/// distance from the same environment yields the value assigned.
pub proof fn law_read_after_assign(
    store: Seq<EnvironmentView>,
    from: usize,
    key: Seq<char>,
    value: LoxValueView,
    distance: nat,
)
    requires
        assignable_at(store, from, key, distance),
    ensures
        value_at(store_assigned(store, from, key, value, distance), from, key, distance) == Some(
            value,
        ),
{
    let target = ancestor_of(store, from, distance).unwrap();
    law_chain_stays_inside(store, from, distance);
    law_binding_keeps_chains(store, target, key, value, from, distance);
}

/// An assignment to a name that is not bound at the resolved distance
/// changes nothing: it creates no binding.
pub proof fn law_assign_needs_binding(
    store: Seq<EnvironmentView>,
    from: usize,
    key: Seq<char>,
    value: LoxValueView,
    distance: nat,
)
    requires
        !assignable_at(store, from, key, distance),
    ensures
        store_assigned(store, from, key, value, distance) == store,
{
}

/// Bindings do not leak: binding a name in one environment leaves what a
/// read finds in any other environment, and what a read of any other name
/// finds, as it was.
pub proof fn law_binding_elsewhere(
    store: Seq<EnvironmentView>,
    target: usize,
    bound: Seq<char>,
    value: LoxValueView,
    from: usize,
    key: Seq<char>,
    distance: nat,
)
    requires
        ancestor_of(store, from, distance) != Some(target) || key != bound,
    ensures
        value_at(store_with(store, target, bound, value), from, key, distance) == value_at(
            store,
            from,
            key,
            distance,
        ),
{
    law_chain_stays_inside(store, from, distance);
    law_binding_keeps_chains(store, target, bound, value, from, distance);
}

/// A new environment leaves the chains of the environments before it as
/// they were.
pub proof fn law_new_environment_keeps_chains(
    store: Seq<EnvironmentView>,
    added: EnvironmentView,
    from: usize,
    distance: nat,
)
    requires
        ancestor_of(store, from, distance) is Some,
    ensures
        ancestor_of(store.push(added), from, distance) == ancestor_of(store, from, distance),
    decreases distance,
{
    if distance > 0 {
        match store[from as int].enclosing {
            Some(parent) => {
                law_new_environment_keeps_chains(store, added, parent, (distance - 1) as nat);
            },
            None => {},
        }
    }
}

/// Shadowing: from a new scope, a binding of the enclosing scopes lies one
/// link farther out, and it is the same binding, whatever the new scope
/// itself binds.
pub proof fn law_shadowing(
    store: Seq<EnvironmentView>,
    inner: EnvironmentView,
    parent: usize,
    key: Seq<char>,
    distance: nat,
)
    requires
        store.len() < usize::MAX,
        inner.enclosing == Some(parent),
        ancestor_of(store, parent, distance) is Some,
    ensures
        value_at(store.push(inner), store.len() as usize, key, distance + 1) == value_at(
            store,
            parent,
            key,
            distance,
        ),
{
    law_new_environment_keeps_chains(store, inner, parent, distance);
    let grown = store.push(inner);
    assert(grown[store.len() as int] == inner);
    assert(ancestor_of(grown, store.len() as usize, distance + 1) == ancestor_of(
        grown,
        parent,
        distance,
    ));
    let target = ancestor_of(store, parent, distance).unwrap();
    law_chain_stays_inside(store, parent, distance);
    assert(grown[target as int] == store[target as int]);
}

/// A chain of enclosing environments ends inside the store.
pub proof fn law_chain_stays_inside(store: Seq<EnvironmentView>, from: usize, distance: nat)
    ensures
        ancestor_of(store, from, distance) matches Some(target) ==> target < store.len(),
    decreases distance,
{
    if from < store.len() && distance > 0 {
        match store[from as int].enclosing {
            Some(parent) => {
                law_chain_stays_inside(store, parent, (distance - 1) as nat);
            },
            None => {},
        }
    }
}

/// Closures capture the environment of their definition: what a variable
/// read inside a call finds beyond the call's own frame depends on the
/// function's closure alone, not on the environment that is current at
/// the call.
pub proof fn law_call_reads_closure(
    state: InterpreterView,
    other: InterpreterView,
    function: LoxFunc,
    frame: EnvironmentView,
    name: Token,
    distance: nat,
)
    requires
        state.heap.environments == other.heap.environments,
        state.heap.environments.len() < usize::MAX,
        frame.enclosing == Some(function.closure),
        ancestor_of(state.heap.environments, function.closure, distance) is Some,
        distance < usize::MAX,
    ensures
        read_variable(
            state.with_heap(state.heap.with_environment(frame)).with_env(
                state.heap.environments.len() as usize,
            ),
            name,
            Some((distance + 1) as usize),
        ) == read_variable(
            other.with_heap(other.heap.with_environment(frame)).with_env(
                other.heap.environments.len() as usize,
            ),
            name,
            Some((distance + 1) as usize),
        ),
        value_at(
            state.heap.environments.push(frame),
            state.heap.environments.len() as usize,
            name.lexeme@,
            distance + 1,
        ) == value_at(state.heap.environments, function.closure, name.lexeme@, distance),
{
    law_shadowing(state.heap.environments, frame, function.closure, name.lexeme@, distance);
}

/// A property that was written reads back as the value written.
pub proof fn law_property_round_trip(
    heap: HeapView,
    instance: usize,
    name: Token,
    value: LoxValueView,
)
    requires
        instance < heap.instances.len(),
    ensures
        heap.with_field(instance, name.lexeme@, value).property(instance, name) == Ok::<
            LoxValueView,
            RuntimeError,
        >(value),
        heap.with_field(instance, name.lexeme@, value).after_property(instance, name.lexeme@)
            == heap.with_field(instance, name.lexeme@, value),
{
}

/// Reading a property that the instance does not have as a field and its
/// class does not have as a method fails with the property's name.
pub proof fn law_undefined_property(heap: HeapView, instance: usize, name: Token)
    requires
        instance < heap.instances.len(),
        !heap.instances[instance as int].state.contains_key(name.lexeme@),
        heap.method_of(heap.instances[instance as int].class, name.lexeme@) is None,
    ensures
        heap.property(instance, name) == Err::<LoxValueView, RuntimeError>(
            RuntimeError::UndefinedProperty(name),
        ),
        heap.after_property(instance, name.lexeme@) == heap,
{
}

/// Writing a property of one instance leaves the fields of every other
/// instance as they were.
pub proof fn law_property_of_another(
    heap: HeapView,
    written: usize,
    name: Seq<char>,
    value: LoxValueView,
    other: usize,
)
    requires
        other < heap.instances.len(),
        other != written,
    ensures
        heap.with_field(written, name, value).instances[other as int]
            == heap.instances[other as int],
{
}

/// Functions, classes and instances are equal exactly when they are the
/// same object.
pub proof fn law_equality_is_identity(a: usize, b: usize)
    ensures
        values_equal(LoxValueView::Func(a), LoxValueView::Func(b)) <==> a == b,
        values_equal(LoxValueView::Class(a), LoxValueView::Class(b)) <==> a == b,
        values_equal(LoxValueView::Instance(a), LoxValueView::Instance(b)) <==> a == b,
        !values_equal(LoxValueView::Func(a), LoxValueView::Class(b)),
        !values_equal(LoxValueView::Class(a), LoxValueView::Instance(b)),
        !values_equal(LoxValueView::Instance(a), LoxValueView::Func(b)),
{
}

/// Equality is reflexive on objects and symmetric on all values.
pub proof fn law_equality_symmetric(a: LoxValueView, b: LoxValueView)
    ensures
        values_equal(a, b) == values_equal(b, a),
        a is Func || a is Class || a is Instance ==> values_equal(a, a),
{
}

/// An instance made by calling a class is a new object: it is unequal to
/// every instance that the heap held before the call, however alike their
/// classes and fields.
pub proof fn law_new_instance_is_distinct(
    state: InterpreterView,
    class: usize,
    arguments: Seq<LoxValueView>,
    paren: Token,
    depth: nat,
    earlier: usize,
)
    requires
        state.heap.instances.len() <= usize::MAX,
        earlier < state.heap.instances.len(),
        call_value(state, CallableHandle::Class(class), arguments, paren, depth).result is Ok,
    ensures
        !values_equal(
            call_value(state, CallableHandle::Class(class), arguments, paren, depth).result->Ok_0,
            LoxValueView::Instance(earlier),
        ),
{
}

} // verus!
