//! The scopes of the resolver and the environments of the interpreter
//! stand for each other: every scope that the resolver opens has its
//! environment at run time, and a name that the resolver finds so many
//! scopes out is bound so many environments out.
//!
//! The laws here state this over the two models. `mirrors` says when a
//! chain of environments stands for a stack of scopes; the laws say that
//! each way of opening a scope or binding a name keeps it so, and that
//! under it a read at the resolved distance finds its binding.

use vstd::prelude::*;
use crate::environment::{assignable_at, store_assigned, store_with, value_at, EnvironmentView};
use crate::heap::this_environment;
use crate::laws::law_read_after_assign;
use crate::resolver::{
    entered, lemma_local_distance_bound, local_distance, parameter_scope, Scopes,
};
use crate::semantics::call_bindings;
use crate::token::Token;
use crate::value::LoxValueView;

verus! {

/// Whether a scope's names that are completely defined are all bound in an
/// environment.
pub open spec fn covers(environment: EnvironmentView, scope: Map<Seq<char>, bool>) -> bool {
    forall|name: Seq<char>|
        scope.contains_key(name) && scope[name] ==> #[trigger] environment.values.contains_key(
            name,
        )
}

/// Whether the chain of environments from `env` outwards stands for the
/// stack of scopes, innermost first: there is an environment for every
/// scope, and it binds the names that the scope holds as defined. What
/// lies beyond the outermost scope is the global environment's business.
pub open spec fn mirrors(store: Seq<EnvironmentView>, env: usize, scopes: Scopes) -> bool
    decreases scopes.len(),
{
    if scopes.len() == 0 {
        true
    } else {
        &&& env < store.len()
        &&& covers(store[env as int], scopes.last())
        &&& scopes.len() > 1 ==> match store[env as int].enclosing {
            Some(parent) => mirrors(store, parent, scopes.drop_last()),
            None => false,
        }
    }
}

/// Whether a store holds all that another holds: the same environments
/// with the same enclosing links, each binding at least the same names.
pub open spec fn extends(later: Seq<EnvironmentView>, earlier: Seq<EnvironmentView>) -> bool {
    &&& earlier.len() <= later.len()
    &&& forall|i: int|
        0 <= i < earlier.len() ==> (#[trigger] later[i]).enclosing == earlier[i].enclosing
    &&& forall|i: int, name: Seq<char>|
        #![trigger later[i].values.contains_key(name)]
        0 <= i < earlier.len() && earlier[i].values.contains_key(name)
            ==> later[i].values.contains_key(name)
}

/// A chain that stands for a stack of scopes still does after the store
/// has grown.
pub proof fn law_growth_keeps_mirror(
    earlier: Seq<EnvironmentView>,
    later: Seq<EnvironmentView>,
    env: usize,
    scopes: Scopes,
)
    requires
        mirrors(earlier, env, scopes),
        extends(later, earlier),
    ensures
        mirrors(later, env, scopes),
    decreases scopes.len(),
{
    if scopes.len() > 0 {
        assert(later[env as int].enclosing == earlier[env as int].enclosing);
        assert forall|name: Seq<char>|
            #![trigger later[env as int].values.contains_key(name)]
            scopes.last().contains_key(name) && scopes.last()[name]
                implies later[env as int].values.contains_key(name) by {
            assert(earlier[env as int].values.contains_key(name));
        }
        if scopes.len() > 1 {
            match earlier[env as int].enclosing {
                Some(parent) => {
                    law_growth_keeps_mirror(earlier, later, parent, scopes.drop_last());
                },
                None => {},
            }
        }
    }
}

/// A read at the resolved distance finds its binding: where the chain of
/// environments stands for the scopes, and the resolver finds a name
/// defined `distance` scopes out, the environment `distance` links out
/// binds the name.
pub proof fn law_resolved_read_finds_binding(
    store: Seq<EnvironmentView>,
    env: usize,
    scopes: Scopes,
    name: Seq<char>,
    distance: usize,
)
    requires
        mirrors(store, env, scopes),
        scopes.len() <= usize::MAX,
        local_distance(scopes, name) == Some(distance),
        distance < scopes.len(),
        scopes[scopes.len() - 1 - distance][name],
    ensures
        value_at(store, env, name, distance as nat) is Some,
    decreases scopes.len(),
{
    if scopes.last().contains_key(name) {
        assert(distance == 0);
        assert(store[env as int].values.contains_key(name));
    } else {
        let outer = scopes.drop_last();
        let further = local_distance(outer, name).unwrap();
        lemma_local_distance_bound(outer, name);
        assert(distance == further + 1);
        assert(outer[outer.len() - 1 - further] == scopes[scopes.len() - 1 - distance]);
        match store[env as int].enclosing {
            Some(parent) => {
                law_resolved_read_finds_binding(store, parent, outer, name, further);
            },
            None => {},
        }
    }
}

/// A read at the resolved distance returns the value assigned last: where
/// the chain stands for the scopes and the resolver finds the name defined
/// `distance` scopes out, an assignment at that distance succeeds, and a
/// read at that distance then yields the value assigned.
pub proof fn law_resolved_read_after_assign(
    store: Seq<EnvironmentView>,
    env: usize,
    scopes: Scopes,
    name: Seq<char>,
    distance: usize,
    value: LoxValueView,
)
    requires
        mirrors(store, env, scopes),
        scopes.len() <= usize::MAX,
        local_distance(scopes, name) == Some(distance),
        distance < scopes.len(),
        scopes[scopes.len() - 1 - distance][name],
    ensures
        assignable_at(store, env, name, distance as nat),
        value_at(
            store_assigned(store, env, name, value, distance as nat),
            env,
            name,
            distance as nat,
        ) == Some(value),
{
    law_resolved_read_finds_binding(store, env, scopes, name, distance);
    law_read_after_assign(store, env, name, value, distance as nat);
}

/// Opening a block keeps the correspondence: the new environment, enclosed
/// by the current one, stands for the new, empty scope.
pub proof fn law_block_keeps_mirror(store: Seq<EnvironmentView>, env: usize, scopes: Scopes)
    requires
        mirrors(store, env, scopes),
        store.len() < usize::MAX,
    ensures
        mirrors(
            store.push(EnvironmentView { values: Map::empty(), enclosing: Some(env) }),
            store.len() as usize,
            scopes.push(Map::empty()),
        ),
{
    let inner = EnvironmentView {
        values: Map::<Seq<char>, LoxValueView>::empty(),
        enclosing: Some(env),
    };
    law_scope_keeps_mirror(store, env, scopes, inner, Map::empty());
}

/// Opening any scope keeps the correspondence: a new environment that is
/// enclosed by the current one and binds the defined names of the new
/// scope stands for that scope on top of the others.
pub proof fn law_scope_keeps_mirror(
    store: Seq<EnvironmentView>,
    env: usize,
    scopes: Scopes,
    inner: EnvironmentView,
    scope: Map<Seq<char>, bool>,
)
    requires
        mirrors(store, env, scopes),
        store.len() < usize::MAX,
        inner.enclosing == Some(env),
        covers(inner, scope),
    ensures
        mirrors(store.push(inner), store.len() as usize, scopes.push(scope)),
{
    let grown = store.push(inner);
    let stack = scopes.push(scope);
    assert(extends(grown, store));
    law_growth_keeps_mirror(store, grown, env, scopes);
    assert(stack.drop_last() =~= scopes);
    assert(grown[store.len() as int] == inner);
}

/// Declaring a variable keeps the correspondence: the name is defined in
/// the innermost scope and bound in the current environment.
pub proof fn law_declaration_keeps_mirror(
    store: Seq<EnvironmentView>,
    env: usize,
    scopes: Scopes,
    name: Seq<char>,
    value: LoxValueView,
)
    requires
        mirrors(store, env, scopes),
    ensures
        mirrors(store_with(store, env, name, value), env, entered(scopes, name, true)),
{
    let bound = store_with(store, env, name, value);
    assert(extends(bound, store));
    law_growth_keeps_mirror(store, bound, env, scopes);
    if scopes.len() > 0 {
        let stack = entered(scopes, name, true);
        assert(stack.drop_last() =~= scopes.drop_last());
        assert(covers(bound[env as int], stack.last()));
    }
}

/// An assignment keeps the correspondence.
pub proof fn law_assignment_keeps_mirror(
    store: Seq<EnvironmentView>,
    env: usize,
    scopes: Scopes,
    from: usize,
    name: Seq<char>,
    value: LoxValueView,
    distance: nat,
)
    requires
        mirrors(store, env, scopes),
    ensures
        mirrors(store_assigned(store, from, name, value, distance), env, scopes),
{
    let assigned = store_assigned(store, from, name, value, distance);
    assert(extends(assigned, store));
    law_growth_keeps_mirror(store, assigned, env, scopes);
}

/// The bindings of a call bind every parameter.
pub proof fn law_call_binds_parameters(
    params: Seq<Token>,
    arguments: Seq<LoxValueView>,
    upto: nat,
    name: Seq<char>,
)
    requires
        upto <= params.len(),
        parameter_scope(params, upto).contains_key(name),
    ensures
        call_bindings(params, arguments, upto).contains_key(name),
    decreases upto,
{
    if upto > 0 && params[upto - 1].lexeme@ != name {
        law_call_binds_parameters(params, arguments, (upto - 1) as nat, name);
    }
}

/// A call keeps the correspondence: the frame of the call, enclosed by the
/// function's closure, stands for the scope of the parameters on top of
/// the scopes in which the function was declared.
pub proof fn law_call_keeps_mirror(
    store: Seq<EnvironmentView>,
    closure: usize,
    scopes: Scopes,
    params: Seq<Token>,
    arguments: Seq<LoxValueView>,
)
    requires
        mirrors(store, closure, scopes),
        store.len() < usize::MAX,
    ensures
        mirrors(
            store.push(
                EnvironmentView {
                    values: call_bindings(params, arguments, params.len()),
                    enclosing: Some(closure),
                },
            ),
            store.len() as usize,
            scopes.push(parameter_scope(params, params.len())),
        ),
{
    let frame = EnvironmentView {
        values: call_bindings(params, arguments, params.len()),
        enclosing: Some(closure),
    };
    let scope = parameter_scope(params, params.len());
    assert forall|name: Seq<char>|
        scope.contains_key(name) && scope[name] implies #[trigger] frame.values.contains_key(
        name,
    ) by {
        law_call_binds_parameters(params, arguments, params.len(), name);
    }
    law_scope_keeps_mirror(store, closure, scopes, frame, scope);
}

/// Binding a method keeps the correspondence: the environment that binds
/// `this`, enclosed by the method's closure, stands for the scope that the
/// resolver opens for `this` around the methods of a class.
pub proof fn law_this_keeps_mirror(
    store: Seq<EnvironmentView>,
    closure: usize,
    scopes: Scopes,
    instance: usize,
)
    requires
        mirrors(store, closure, scopes),
        store.len() < usize::MAX,
    ensures
        mirrors(
            store.push(this_environment(closure, instance)),
            store.len() as usize,
            scopes.push(Map::<Seq<char>, bool>::empty().insert("this"@, true)),
        ),
{
    law_scope_keeps_mirror(
        store,
        closure,
        scopes,
        this_environment(closure, instance),
        Map::<Seq<char>, bool>::empty().insert("this"@, true),
    );
}

/// Declaring a class with a superclass keeps the correspondence: the
/// environment that binds `super`, enclosed by the current one, stands for
/// the scope that the resolver opens for `super`.
pub proof fn law_super_keeps_mirror(
    store: Seq<EnvironmentView>,
    env: usize,
    scopes: Scopes,
    superclass: usize,
)
    requires
        mirrors(store, env, scopes),
        store.len() < usize::MAX,
    ensures
        mirrors(
            store.push(
                EnvironmentView {
                    values: Map::<Seq<char>, LoxValueView>::empty().insert(
                        "super"@,
                        LoxValueView::Class(superclass),
                    ),
                    enclosing: Some(env),
                },
            ),
            store.len() as usize,
            scopes.push(Map::<Seq<char>, bool>::empty().insert("super"@, true)),
        ),
{
    law_scope_keeps_mirror(
        store,
        env,
        scopes,
        EnvironmentView {
            values: Map::<Seq<char>, LoxValueView>::empty().insert(
                "super"@,
                LoxValueView::Class(superclass),
            ),
            enclosing: Some(env),
        },
        Map::<Seq<char>, bool>::empty().insert("super"@, true),
    );
}

/// The distance that the resolver finds names a scope that holds the name,
/// and no nearer scope holds it.
pub proof fn law_distance_names_a_scope(scopes: Scopes, name: Seq<char>, distance: usize)
    requires
        scopes.len() <= usize::MAX,
        local_distance(scopes, name) == Some(distance),
    ensures
        distance < scopes.len(),
        scopes[scopes.len() - 1 - distance].contains_key(name),
        forall|i: int|
            scopes.len() - 1 - distance < i < scopes.len() ==> !(#[trigger] scopes[i]).contains_key(
                name,
            ),
    decreases scopes.len(),
{
    if scopes.len() > 0 && !scopes.last().contains_key(name) {
        let outer = scopes.drop_last();
        let further = local_distance(outer, name).unwrap();
        lemma_local_distance_bound(outer, name);
        law_distance_names_a_scope(outer, name, further);
        assert(outer[outer.len() - 1 - further] == scopes[scopes.len() - 1 - distance]);
        assert forall|i: int| scopes.len() - 1 - distance < i < scopes.len() implies !(
        #[trigger] scopes[i]).contains_key(name) by {
            if i < scopes.len() - 1 {
                assert(outer[i] == scopes[i]);
            }
        }
    }
}

} // verus!
