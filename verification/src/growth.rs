//! Nothing that a program does takes anything away: whatever is
//! evaluated, the heap afterwards holds every object that it held before,
//! under the same handle; environments keep their enclosing links and
//! their names, the output keeps what was printed, and the environment
//! that was current before is current again.
//!
//! So a handle, once given out, stays valid for the rest of the run, and a
//! closure's chain of environments is the same chain whatever runs between
//! the function's declaration and its call.

use vstd::prelude::*;
use crate::callables::{Callable, LoxFunc};
use crate::environment::EnvironmentView;
use crate::expr::Expr;
use crate::heap::HeapView;
use crate::resolver::{scopes_after, scopes_before, Scopes};
use crate::scoping::{
    extends, law_declaration_keeps_mirror, law_growth_keeps_mirror, mirrors,
};
use crate::semantics::{
    call_function, call_value, declare_class, eval_args, eval_expr, exec_block, exec_stmt,
    exec_stmts, get_outcome, methods_built, run_all, run_while, super_outcome, write_variable,
    InterpreterView,
};
use crate::stmt::{declares, tidy, Stmt};
use crate::token::Token;
use crate::value::{CallableHandle, LoxValueView};

verus! {

/// Whether a heap holds all that another holds.
pub open spec fn heap_grows(earlier: HeapView, later: HeapView) -> bool {
    &&& extends(later.environments, earlier.environments)
    &&& earlier.functions.len() <= later.functions.len()
    &&& forall|i: int|
        0 <= i < earlier.functions.len() ==> #[trigger] later.functions[i] == earlier.functions[i]
    &&& earlier.classes.len() <= later.classes.len()
    &&& forall|i: int|
        0 <= i < earlier.classes.len() ==> #[trigger] later.classes[i] == earlier.classes[i]
    &&& earlier.instances.len() <= later.instances.len()
    &&& forall|i: int|
        0 <= i < earlier.instances.len() ==> (#[trigger] later.instances[i]).class
            == earlier.instances[i].class && later.instances[i].class_name
            == earlier.instances[i].class_name
    &&& forall|i: int, name: Seq<char>|
        0 <= i < earlier.instances.len() && earlier.instances[i].state.contains_key(name)
            ==> #[trigger] later.instances[i].state.contains_key(name)
}

/// Whether the state of an interpreter has only grown: the heap holds all
/// that it held, the output starts with what was printed, the readings of
/// the clock start with those taken, the budget of steps is no larger, and
/// the current environment is the same.
pub open spec fn grows(earlier: InterpreterView, later: InterpreterView) -> bool {
    &&& heap_grows(earlier.heap, later.heap)
    &&& later.env == earlier.env
    &&& later.globals == earlier.globals
    &&& later.max_depth == earlier.max_depth
    &&& later.steps <= earlier.steps
    &&& later.clock == earlier.clock
    &&& crate::semantics::is_prefix(earlier.readings, later.readings)
    &&& earlier.output.len() <= later.output.len()
    &&& later.output.subrange(0, earlier.output.len() as int) == earlier.output
}

/// The statements of a function's body.
pub open spec fn body_of(function: LoxFunc) -> Vec<Stmt> {
    function.declaration.body
}

/// A state has grown from itself.
pub proof fn lemma_grows_reflexive(state: InterpreterView)
    ensures
        grows(state, state),
{
    assert(state.output.subrange(0, state.output.len() as int) =~= state.output);
}

/// Growth carries over.
pub proof fn lemma_grows_transitive(a: InterpreterView, b: InterpreterView, c: InterpreterView)
    requires
        grows(a, b),
        grows(b, c),
    ensures
        grows(a, c),
{
    assert(c.output.subrange(0, a.output.len() as int) =~= b.output.subrange(
        0,
        a.output.len() as int,
    )) by {
        assert(c.output.subrange(0, b.output.len() as int) == b.output);
        assert forall|i: int| 0 <= i < a.output.len() implies c.output[i] == b.output[i] by {
            assert(c.output.subrange(0, b.output.len() as int)[i] == b.output[i]);
        }
    }
    assert forall|i: int| 0 <= i < a.heap.environments.len() implies (
    #[trigger] c.heap.environments[i]).enclosing == a.heap.environments[i].enclosing by {
        assert(b.heap.environments[i].enclosing == a.heap.environments[i].enclosing);
    }
    assert forall|i: int, name: Seq<char>|
        0 <= i < a.heap.environments.len() && a.heap.environments[i].values.contains_key(
            name,
        ) implies #[trigger] c.heap.environments[i].values.contains_key(name) by {
        assert(b.heap.environments[i].values.contains_key(name));
    }
    assert forall|i: int| 0 <= i < a.heap.functions.len() implies #[trigger] c.heap.functions[i]
        == a.heap.functions[i] by {
        assert(b.heap.functions[i] == a.heap.functions[i]);
    }
    assert forall|i: int| 0 <= i < a.heap.classes.len() implies #[trigger] c.heap.classes[i]
        == a.heap.classes[i] by {
        assert(b.heap.classes[i] == a.heap.classes[i]);
    }
    assert forall|i: int| 0 <= i < a.heap.instances.len() implies (
    #[trigger] c.heap.instances[i]).class == a.heap.instances[i].class
        && c.heap.instances[i].class_name == a.heap.instances[i].class_name by {
        assert(b.heap.instances[i].class == a.heap.instances[i].class);
    }
    assert forall|i: int, name: Seq<char>|
        0 <= i < a.heap.instances.len() && a.heap.instances[i].state.contains_key(
            name,
        ) implies #[trigger] c.heap.instances[i].state.contains_key(name) by {
        assert(b.heap.instances[i].state.contains_key(name));
    }
}

/// Binding a name is growth.
pub proof fn lemma_defined_grows(state: InterpreterView, name: Seq<char>, value: LoxValueView)
    ensures
        grows(state, state.defined(name, value)),
{
    lemma_grows_reflexive(state);
}

/// A new environment is growth.
pub proof fn lemma_environment_grows(state: InterpreterView, environment: EnvironmentView)
    ensures
        grows(state, state.with_heap(state.heap.with_environment(environment))),
{
    lemma_grows_reflexive(state);
}

/// A new function object is growth.
pub proof fn lemma_function_grows(state: InterpreterView, function: Callable)
    ensures
        grows(state, state.with_heap(state.heap.with_function(function))),
{
    lemma_grows_reflexive(state);
}

/// An assignment is growth.
pub proof fn lemma_write_grows(
    state: InterpreterView,
    name: Token,
    distance: Option<usize>,
    value: LoxValueView,
)
    ensures
        grows(state, write_variable(state, name, distance, value).state),
{
    lemma_grows_reflexive(state);
}

/// Reading a property is growth.
pub proof fn lemma_get_grows(state: InterpreterView, target: LoxValueView, name: Token)
    ensures
        grows(state, get_outcome(state, target, name).state),
{
    lemma_grows_reflexive(state);
}

/// Evaluating `super.method` is growth.
pub proof fn lemma_super_grows(state: InterpreterView, method: Token, distance: Option<usize>)
    ensures
        grows(state, super_outcome(state, method, distance).state),
{
    lemma_grows_reflexive(state);
}

/// Writing a property is growth.
pub proof fn lemma_field_grows(
    state: InterpreterView,
    instance: usize,
    name: Seq<char>,
    value: LoxValueView,
)
    ensures
        grows(state, state.with_heap(state.heap.with_field(instance, name, value))),
{
    lemma_grows_reflexive(state);
}

/// Building the method table of a class is growth.
pub proof fn lemma_methods_grow(
    state: InterpreterView,
    methods: Seq<Stmt>,
    from: nat,
    closure: usize,
    table: Map<Seq<char>, LoxValueView>,
)
    ensures
        grows(
            state,
            state.with_heap(methods_built(state.heap, methods, from, closure, table).heap),
        ),
    decreases methods.len() - from,
{
    lemma_grows_reflexive(state);
    if from < methods.len() {
        match methods[from as int] {
            Stmt::Func(declaration) => {
                let function = Callable::Function(
                    LoxFunc {
                        declaration,
                        closure,
                        is_initializer: declaration.name.lexeme@ == "init"@,
                    },
                );
                let next = state.with_heap(state.heap.with_function(function));
                lemma_function_grows(state, function);
                lemma_methods_grow(
                    next,
                    methods,
                    from + 1,
                    closure,
                    table.insert(
                        declaration.name.lexeme@,
                        LoxValueView::Func(state.heap.functions.len() as usize),
                    ),
                );
                lemma_grows_transitive(
                    state,
                    next,
                    next.with_heap(
                        methods_built(
                            next.heap,
                            methods,
                            from + 1,
                            closure,
                            table.insert(
                                declaration.name.lexeme@,
                                LoxValueView::Func(state.heap.functions.len() as usize),
                            ),
                        ).heap,
                    ),
                );
            },
            _ => {},
        }
    }
}

/// Declaring a class is growth.
pub proof fn lemma_class_grows(
    state: InterpreterView,
    name: Token,
    superclass: Option<usize>,
    closure: usize,
    methods: Seq<Stmt>,
)
    ensures
        grows(state, declare_class(state, name, superclass, closure, methods).state),
{
    lemma_methods_grow(state, methods, 0, closure, Map::empty());
    let built = methods_built(state.heap, methods, 0, closure, Map::empty());
    let with_methods = state.with_heap(built.heap);
    match built.result {
        Ok(table) => {
            if state.env < built.heap.environments.len() {
                let with_class = state.with_heap(
                    built.heap.with_class(
                        crate::lox_class::LoxClassView {
                            name: name.lexeme@,
                            superclass,
                            methods: table,
                        },
                    ),
                );
                lemma_grows_reflexive(with_methods);
                assert(grows(with_methods, with_class));
                lemma_defined_grows(
                    with_class,
                    name.lexeme@,
                    LoxValueView::Class(built.heap.classes.len() as usize),
                );
                lemma_grows_transitive(state, with_methods, with_class);
                lemma_grows_transitive(
                    state,
                    with_class,
                    with_class.defined(
                        name.lexeme@,
                        LoxValueView::Class(built.heap.classes.len() as usize),
                    ),
                );
            }
        },
        Err(_) => {},
    }
}

/// Evaluating an expression is growth.
pub proof fn law_expression_grows(state: InterpreterView, expr: Expr, depth: nat)
    ensures
        grows(state, eval_expr(state, expr, depth).state),
    decreases depth, 2nat, expr, 0nat,
{
    lemma_grows_reflexive(state);
    match expr {
        Expr::Literal(_) => {},
        Expr::Grouping(inner) => {
            law_expression_grows(state, *inner, depth);
        },
        Expr::Unary(_, operand) => {
            law_expression_grows(state, *operand, depth);
        },
        Expr::Binary(left, _, right) => {
            law_expression_grows(state, *left, depth);
            let first = eval_expr(state, *left, depth);
            if first.result is Ok {
                law_expression_grows(first.state, *right, depth);
                lemma_grows_transitive(
                    state,
                    first.state,
                    eval_expr(first.state, *right, depth).state,
                );
            }
        },
        Expr::Var(_, _) => {},
        Expr::Assign(name, value, distance) => {
            law_expression_grows(state, *value, depth);
            let first = eval_expr(state, *value, depth);
            match first.result {
                Ok(assigned) => {
                    lemma_write_grows(first.state, name, distance, assigned);
                    lemma_grows_transitive(
                        state,
                        first.state,
                        write_variable(first.state, name, distance, assigned).state,
                    );
                },
                Err(_) => {},
            }
        },
        Expr::Logical(left, _, right) => {
            law_expression_grows(state, *left, depth);
            let first = eval_expr(state, *left, depth);
            if first.result is Ok {
                law_expression_grows(first.state, *right, depth);
                lemma_grows_transitive(
                    state,
                    first.state,
                    eval_expr(first.state, *right, depth).state,
                );
            }
        },
        Expr::Call(callee, arguments, paren) => {
            law_expression_grows(state, *callee, depth);
            let first = eval_expr(state, *callee, depth);
            match first.result {
                Ok(callee_value) => {
                    law_arguments_grow(first.state, arguments, 0, Seq::empty(), depth);
                    let gathered = eval_args(first.state, arguments, 0, Seq::empty(), depth);
                    lemma_grows_transitive(state, first.state, gathered.state);
                    match gathered.result {
                        Ok(values) => {
                            match crate::value::callable_of(callee_value) {
                                Some(callable) => {
                                    law_call_grows(gathered.state, callable, values, paren, depth);
                                    let called = call_value(
                                        gathered.state,
                                        callable,
                                        values,
                                        paren,
                                        depth,
                                    );
                                    lemma_grows_transitive(state, gathered.state, called.state);
                                },
                                None => {},
                            }
                        },
                        Err(_) => {},
                    }
                },
                Err(_) => {},
            }
        },
        Expr::Get(target, name) => {
            law_expression_grows(state, *target, depth);
            let first = eval_expr(state, *target, depth);
            match first.result {
                Ok(target_value) => {
                    lemma_get_grows(first.state, target_value, name);
                    lemma_grows_transitive(
                        state,
                        first.state,
                        get_outcome(first.state, target_value, name).state,
                    );
                },
                Err(_) => {},
            }
        },
        Expr::SetProperty(target, name, value) => {
            law_expression_grows(state, *target, depth);
            let first = eval_expr(state, *target, depth);
            match first.result {
                Ok(LoxValueView::Instance(instance)) => {
                    law_expression_grows(first.state, *value, depth);
                    let second = eval_expr(first.state, *value, depth);
                    lemma_grows_transitive(state, first.state, second.state);
                    match second.result {
                        Ok(assigned) => {
                            lemma_field_grows(second.state, instance, name.lexeme@, assigned);
                            lemma_grows_transitive(
                                state,
                                second.state,
                                second.state.with_heap(
                                    second.state.heap.with_field(instance, name.lexeme@, assigned),
                                ),
                            );
                        },
                        Err(_) => {},
                    }
                },
                _ => {},
            }
        },
        Expr::This(_, _) => {},
        Expr::Super(_, method, distance) => {
            lemma_super_grows(state, method, distance);
        },
    }
}

/// Evaluating the arguments of a call is growth.
pub proof fn law_arguments_grow(
    state: InterpreterView,
    arguments: Vec<Expr>,
    from: nat,
    values: Seq<LoxValueView>,
    depth: nat,
)
    ensures
        grows(state, eval_args(state, arguments, from, values, depth).state),
    decreases depth, 2nat, arguments, arguments@.len() - from,
{
    lemma_grows_reflexive(state);
    if from < arguments@.len() {
        law_expression_grows(state, arguments@[from as int], depth);
        let first = eval_expr(state, arguments@[from as int], depth);
        match first.result {
            Ok(value) => {
                law_arguments_grow(first.state, arguments, from + 1, values.push(value), depth);
                lemma_grows_transitive(
                    state,
                    first.state,
                    eval_args(first.state, arguments, from + 1, values.push(value), depth).state,
                );
            },
            Err(_) => {},
        }
    }
}

/// Calling a function or a class is growth.
pub proof fn law_call_grows(
    state: InterpreterView,
    callable: CallableHandle,
    arguments: Seq<LoxValueView>,
    paren: Token,
    depth: nat,
)
    ensures
        grows(state, call_value(state, callable, arguments, paren, depth).state),
    decreases depth, 1nat, paren, 1nat,
{
    lemma_grows_reflexive(state);
    match callable {
        CallableHandle::Func(handle) => {
            if handle < state.heap.functions.len() {
                match state.heap.functions[handle as int] {
                    Callable::Function(function) => {
                        law_function_grows(state, function, arguments, paren, depth);
                    },
                    Callable::Native(_) => {},
                }
            }
        },
        CallableHandle::Class(class) => {
            if class < state.heap.classes.len() {
                let instance = state.heap.instances.len() as usize;
                let created = state.with_heap(
                    state.heap.with_instance(
                        crate::lox_instance::LoxInstanceView {
                            class,
                            class_name: state.heap.classes[class as int].name,
                            state: Map::empty(),
                        },
                    ),
                );
                assert(grows(state, created));
                match created.heap.method_of(class, "init"@) {
                    Some(init) => {
                        let bound = created.heap.bound(init, instance);
                        let ready = created.with_heap(created.heap.after_bind(init, instance));
                        lemma_grows_reflexive(created);
                        assert(grows(created, ready));
                        lemma_grows_transitive(state, created, ready);
                        law_function_grows(ready, bound, arguments, paren, depth);
                        lemma_grows_transitive(
                            state,
                            ready,
                            call_function(ready, bound, arguments, paren, depth).state,
                        );
                    },
                    None => {},
                }
            }
        },
    }
}

/// Calling a function of the program is growth.
pub proof fn law_function_grows(
    state: InterpreterView,
    function: LoxFunc,
    arguments: Seq<LoxValueView>,
    paren: Token,
    depth: nat,
)
    ensures
        grows(state, call_function(state, function, arguments, paren, depth).state),
    decreases depth, 1nat, paren, 0nat,
{
    lemma_grows_reflexive(state);
    if arguments.len() == function.declaration.params@.len() && depth > 0 {
        let frame = EnvironmentView {
            values: crate::semantics::call_bindings(
                function.declaration.params@,
                arguments,
                arguments.len(),
            ),
            enclosing: Some(function.closure),
        };
        law_block_grows(state, body_of(function), frame, (depth - 1) as nat);
    }
}

/// Executing statements in a new environment is growth, and the
/// environment that was current before is current again afterwards.
pub proof fn law_block_grows(
    state: InterpreterView,
    statements: Vec<Stmt>,
    environment: EnvironmentView,
    depth: nat,
)
    ensures
        grows(state, exec_block(state, statements, environment, depth).state),
    decreases depth, 3nat, statements, statements@.len() + 1,
{
    let opened = state.with_heap(state.heap.with_environment(environment));
    let inner = opened.with_env(state.heap.environments.len() as usize);
    lemma_environment_grows(state, environment);
    law_statements_grow(inner, statements, 0, depth);
    let ran = exec_stmts(inner, statements, 0, depth);
    assert(grows(opened, ran.state.with_env(state.env)));
    lemma_grows_transitive(state, opened, ran.state.with_env(state.env));
}

/// Executing statements in order is growth.
pub proof fn law_statements_grow(
    state: InterpreterView,
    statements: Vec<Stmt>,
    from: nat,
    depth: nat,
)
    ensures
        grows(state, exec_stmts(state, statements, from, depth).state),
    decreases depth, 3nat, statements, statements@.len() - from,
{
    lemma_grows_reflexive(state);
    if from < statements@.len() {
        law_statement_grows(state, statements@[from as int], depth);
        let first = exec_stmt(state, statements@[from as int], depth);
        match first.result {
            Ok(None) => {
                law_statements_grow(first.state, statements, from + 1, depth);
                lemma_grows_transitive(
                    state,
                    first.state,
                    exec_stmts(first.state, statements, from + 1, depth).state,
                );
            },
            _ => {},
        }
    }
}

/// Executing a `while` statement is growth.
pub proof fn law_loop_grows(state: InterpreterView, stmt: Stmt, depth: nat)
    ensures
        grows(state, run_while(state, stmt, depth).state),
    decreases depth, 3nat, stmt, state.steps as nat,
{
    lemma_grows_reflexive(state);
    match stmt {
        Stmt::While(condition, body) => {
            if state.steps != 0 {
                let ticked = state.ticked();
                assert(grows(state, ticked));
                law_expression_grows(ticked, condition, depth);
                let tested = eval_expr(ticked, condition, depth);
                lemma_grows_transitive(state, ticked, tested.state);
                match tested.result {
                    Ok(value) => {
                        if crate::value::truthy(value) {
                            law_statement_grows(tested.state, *body, depth);
                            let ran = exec_stmt(tested.state, *body, depth);
                            lemma_grows_transitive(state, tested.state, ran.state);
                            match ran.result {
                                Ok(None) => {
                                    if ran.state.steps < state.steps {
                                        law_loop_grows(ran.state, stmt, depth);
                                        lemma_grows_transitive(
                                            state,
                                            ran.state,
                                            run_while(ran.state, stmt, depth).state,
                                        );
                                    }
                                },
                                _ => {},
                            }
                        }
                    },
                    Err(_) => {},
                }
            }
        },
        _ => {},
    }
}

/// Executing a statement is growth.
pub proof fn law_statement_grows(state: InterpreterView, stmt: Stmt, depth: nat)
    ensures
        grows(state, exec_stmt(state, stmt, depth).state),
    decreases depth, 3nat, stmt, crate::semantics::beyond_steps(),
{
    lemma_grows_reflexive(state);
    match stmt {
        Stmt::Print(expr) => {
            law_expression_grows(state, expr, depth);
            let value = eval_expr(state, expr, depth);
            match value.result {
                Ok(printed) => {
                    let after = value.state.printed(value.state.heap.display(printed));
                    lemma_grows_reflexive(value.state);
                    assert(after.output.subrange(0, value.state.output.len() as int)
                        =~= value.state.output);
                    assert(grows(value.state, after));
                    lemma_grows_transitive(state, value.state, after);
                },
                Err(_) => {},
            }
        },
        Stmt::Expr(expr) => {
            law_expression_grows(state, expr, depth);
        },
        Stmt::Var(name, initializer) => {
            law_expression_grows(state, initializer, depth);
            let value = eval_expr(state, initializer, depth);
            match value.result {
                Ok(initial) => {
                    lemma_defined_grows(value.state, name.lexeme@, initial);
                    lemma_grows_transitive(
                        state,
                        value.state,
                        value.state.defined(name.lexeme@, initial),
                    );
                },
                Err(_) => {},
            }
        },
        Stmt::Block(statements) => {
            law_block_grows(
                state,
                statements,
                EnvironmentView { values: Map::empty(), enclosing: Some(state.env) },
                depth,
            );
        },
        Stmt::If(condition, then_branch, else_branch) => {
            law_expression_grows(state, condition, depth);
            let tested = eval_expr(state, condition, depth);
            match tested.result {
                Ok(value) => {
                    if crate::value::truthy(value) {
                        law_statement_grows(tested.state, *then_branch, depth);
                        lemma_grows_transitive(
                            state,
                            tested.state,
                            exec_stmt(tested.state, *then_branch, depth).state,
                        );
                    } else {
                        match *else_branch {
                            Some(otherwise) => {
                                law_statement_grows(tested.state, otherwise, depth);
                                lemma_grows_transitive(
                                    state,
                                    tested.state,
                                    exec_stmt(tested.state, otherwise, depth).state,
                                );
                            },
                            None => {},
                        }
                    }
                },
                Err(_) => {},
            }
        },
        Stmt::While(_, _) => {
            law_loop_grows(state, stmt, depth);
        },
        Stmt::Func(declaration) => {
            if state.env < state.heap.environments.len() {
                let function = Callable::Function(
                    LoxFunc { declaration, closure: state.env, is_initializer: false },
                );
                let stored = state.with_heap(state.heap.with_function(function));
                lemma_function_grows(state, function);
                lemma_defined_grows(
                    stored,
                    declaration.name.lexeme@,
                    LoxValueView::Func(state.heap.functions.len() as usize),
                );
                lemma_grows_transitive(
                    state,
                    stored,
                    stored.defined(
                        declaration.name.lexeme@,
                        LoxValueView::Func(state.heap.functions.len() as usize),
                    ),
                );
            }
        },
        Stmt::Return(_, value) => {
            law_expression_grows(state, *value, depth);
        },
        Stmt::Class(name, superclass, methods) => {
            match superclass {
                None => {
                    lemma_class_grows(state, name, None, state.env, methods@);
                },
                Some(superclass) => {
                    law_expression_grows(state, superclass, depth);
                    let parent = eval_expr(state, superclass, depth);
                    match parent.result {
                        Ok(LoxValueView::Class(handle)) => {
                            let closure = parent.state.heap.environments.len() as usize;
                            let scope = EnvironmentView {
                                values: Map::<Seq<char>, LoxValueView>::empty().insert(
                                    "super"@,
                                    LoxValueView::Class(handle),
                                ),
                                enclosing: Some(parent.state.env),
                            };
                            let scoped = parent.state.with_heap(
                                parent.state.heap.with_environment(scope),
                            );
                            lemma_environment_grows(parent.state, scope);
                            lemma_class_grows(scoped, name, Some(handle), closure, methods@);
                            lemma_grows_transitive(state, parent.state, scoped);
                            lemma_grows_transitive(
                                state,
                                scoped,
                                declare_class(scoped, name, Some(handle), closure, methods@).state,
                            );
                        },
                        _ => {},
                    }
                },
            }
        },
    }
}

/// Running a program is growth.
pub proof fn law_run_grows(state: InterpreterView, statements: Vec<Stmt>, from: nat)
    ensures
        grows(state, run_all(state, statements, from).state),
    decreases statements@.len() - from,
{
    lemma_grows_reflexive(state);
    if from < statements@.len() {
        law_statement_grows(state, statements@[from as int], state.max_depth as nat);
        let first = exec_stmt(state, statements@[from as int], state.max_depth as nat);
        match first.result {
            Ok(_) => {
                law_run_grows(first.state, statements, from + 1);
                lemma_grows_transitive(
                    state,
                    first.state,
                    run_all(first.state, statements, from + 1).state,
                );
            },
            Err(_) => {},
        }
    }
}

/// Closures keep their environment: a chain of environments that stands
/// for a stack of scopes when a function is declared still stands for it
/// after any statement has been executed, so the function sees at its
/// call what it saw at its declaration.
pub proof fn law_closure_survives(
    state: InterpreterView,
    stmt: Stmt,
    depth: nat,
    closure: usize,
    scopes: Scopes,
)
    requires
        mirrors(state.heap.environments, closure, scopes),
    ensures
        mirrors(exec_stmt(state, stmt, depth).state.heap.environments, closure, scopes),
{
    law_statement_grows(state, stmt, depth);
    law_growth_keeps_mirror(
        state.heap.environments,
        exec_stmt(state, stmt, depth).state.heap.environments,
        closure,
        scopes,
    );
}

/// A statement that is no declaration leaves the scopes as they are.
pub proof fn lemma_plain_statement_keeps_scopes(stmt: Stmt, scopes: Scopes)
    requires
        !declares(stmt),
        tidy(stmt),
    ensures
        scopes_after(stmt, scopes) == scopes,
    decreases stmt,
{
    match stmt {
        Stmt::If(_, then_branch, else_branch) => {
            lemma_plain_statement_keeps_scopes(*then_branch, scopes);
            match *else_branch {
                Some(otherwise) => {
                    lemma_plain_statement_keeps_scopes(otherwise, scopes);
                },
                None => {},
            }
        },
        Stmt::While(_, body) => {
            lemma_plain_statement_keeps_scopes(*body, scopes);
        },
        _ => {},
    }
}

/// The scopes of the resolver and the environments of the interpreter
/// move in step, for every tidy statement, as every statement is that the
/// parser produces and the resolver hands on: where the chain of
/// environments from the current one
/// stands for the scopes in which a statement was resolved, then after the
/// statement has run to its end the chain stands for the scopes that the
/// statement leaves, those in which the resolver resolved what follows.
pub proof fn law_statement_keeps_mirror(
    state: InterpreterView,
    stmt: Stmt,
    depth: nat,
    scopes: Scopes,
)
    requires
        mirrors(state.heap.environments, state.env, scopes),
        tidy(stmt),
        exec_stmt(state, stmt, depth).result == Ok::<
            Option<LoxValueView>,
            crate::semantics::Stop,
        >(None),
    ensures
        mirrors(
            exec_stmt(state, stmt, depth).state.heap.environments,
            state.env,
            scopes_after(stmt, scopes),
        ),
{
    let after = exec_stmt(state, stmt, depth).state;
    law_statement_grows(state, stmt, depth);
    law_growth_keeps_mirror(state.heap.environments, after.heap.environments, state.env, scopes);
    match stmt {
        Stmt::Var(name, initializer) => {
            let value = eval_expr(state, initializer, depth);
            law_expression_grows(state, initializer, depth);
            law_growth_keeps_mirror(
                state.heap.environments,
                value.state.heap.environments,
                state.env,
                scopes,
            );
            law_declaration_keeps_mirror(
                value.state.heap.environments,
                state.env,
                scopes,
                name.lexeme@,
                value.result->Ok_0,
            );
        },
        Stmt::Func(declaration) => {
            law_declaration_keeps_mirror(
                state.heap.environments,
                state.env,
                scopes,
                declaration.name.lexeme@,
                LoxValueView::Func(state.heap.functions.len() as usize),
            );
        },
        Stmt::Class(name, superclass, methods) => {
            match superclass {
                None => {
                    lemma_declared_class_mirrors(state, name, None, state.env, methods@, scopes);
                },
                Some(parent_expr) => {
                    let parent = eval_expr(state, parent_expr, depth);
                    law_expression_grows(state, parent_expr, depth);
                    law_growth_keeps_mirror(
                        state.heap.environments,
                        parent.state.heap.environments,
                        state.env,
                        scopes,
                    );
                    match parent.result {
                        Ok(LoxValueView::Class(handle)) => {
                            let closure = parent.state.heap.environments.len() as usize;
                            let scope = EnvironmentView {
                                values: Map::<Seq<char>, LoxValueView>::empty().insert(
                                    "super"@,
                                    LoxValueView::Class(handle),
                                ),
                                enclosing: Some(parent.state.env),
                            };
                            let scoped = parent.state.with_heap(
                                parent.state.heap.with_environment(scope),
                            );
                            lemma_environment_grows(parent.state, scope);
                            law_growth_keeps_mirror(
                                parent.state.heap.environments,
                                scoped.heap.environments,
                                state.env,
                                scopes,
                            );
                            lemma_declared_class_mirrors(
                                scoped,
                                name,
                                Some(handle),
                                closure,
                                methods@,
                                scopes,
                            );
                        },
                        _ => {},
                    }
                },
            }
        },
        _ => {
            lemma_plain_statement_keeps_scopes(stmt, scopes);
        },
    }
}

/// After a class declaration has run to its end, the class's name is bound
/// in the current environment.
pub proof fn lemma_declared_class_mirrors(
    state: InterpreterView,
    name: Token,
    superclass: Option<usize>,
    closure: usize,
    methods: Seq<Stmt>,
    scopes: Scopes,
)
    requires
        mirrors(state.heap.environments, state.env, scopes),
        declare_class(state, name, superclass, closure, methods).result is Ok,
    ensures
        mirrors(
            declare_class(state, name, superclass, closure, methods).state.heap.environments,
            state.env,
            crate::resolver::entered(scopes, name.lexeme@, true),
        ),
{
    let built = methods_built(state.heap, methods, 0, closure, Map::empty());
    lemma_methods_grow(state, methods, 0, closure, Map::empty());
    let with_methods = state.with_heap(built.heap);
    law_growth_keeps_mirror(
        state.heap.environments,
        with_methods.heap.environments,
        state.env,
        scopes,
    );
    let table = built.result->Ok_0;
    let with_class = state.with_heap(
        built.heap.with_class(
            crate::lox_class::LoxClassView { name: name.lexeme@, superclass, methods: table },
        ),
    );
    assert(with_class.heap.environments == with_methods.heap.environments);
    law_declaration_keeps_mirror(
        with_class.heap.environments,
        state.env,
        scopes,
        name.lexeme@,
        LoxValueView::Class(built.heap.classes.len() as usize),
    );
}

/// Statement by statement: where the chain of environments stands for the
/// scopes in which a list of statements was resolved, each statement of
/// the list starts in a state whose chain stands for the scopes in which
/// the resolver resolved that statement, as long as the statements before
/// it run to their ends.
pub proof fn law_statements_keep_mirror(
    state: InterpreterView,
    statements: Vec<Stmt>,
    from: nat,
    depth: nat,
    scopes: Scopes,
)
    requires
        from <= statements@.len(),
        mirrors(state.heap.environments, state.env, scopes_before(statements, from, scopes)),
        forall|i: int| 0 <= i < statements@.len() ==> tidy(#[trigger] statements@[i]),
        exec_stmts(state, statements, from, depth).result == Ok::<
            Option<LoxValueView>,
            crate::semantics::Stop,
        >(None),
    ensures
        mirrors(
            exec_stmts(state, statements, from, depth).state.heap.environments,
            state.env,
            scopes_before(statements, statements@.len(), scopes),
        ),
    decreases statements@.len() - from,
{
    if from < statements@.len() {
        let first = exec_stmt(state, statements@[from as int], depth);
        law_statement_grows(state, statements@[from as int], depth);
        law_statement_keeps_mirror(
            state,
            statements@[from as int],
            depth,
            scopes_before(statements, from, scopes),
        );
        law_statements_keep_mirror(first.state, statements, from + 1, depth, scopes);
    }
}

} // verus!
