//! What a program means: evaluation as mathematical functions from the
//! state of an interpreter to its next state and a result. The interpreter
//! is verified to compute exactly these functions.
//!
//! Two bounds make every evaluation finite. `depth` is the number of calls
//! that may still nest; a call at depth 0 stops with `StackOverflow`. The
//! state's `steps` is the number of loop iterations that may still start;
//! an iteration at 0 stops with `IterationLimit`.
//!
//! The time is an input. The state's `clock` lists the readings that the
//! clock gives in the course of the run, and `readings` those taken so
//! far: the native function `clock` takes the next one. Where the list is
//! used up the evaluation stops with `Stop::ClockRead`.

use vstd::prelude::*;
use crate::callables::{Callable, LoxFunc};
use crate::environment::{assignable_at, store_assigned, store_with, value_at, EnvironmentView};
use crate::errors::{Fault, RuntimeError};
use crate::expr::Expr;
use crate::heap::HeapView;
use crate::lox_class::LoxClassView;
use crate::lox_instance::LoxInstanceView;
use crate::stmt::Stmt;
use crate::token::{Token, TokenType};
use crate::value::{
    callable_of, difference, greater, greater_equal, less, less_equal, literal_value,
    negated_value, product, quotient, sum, truthy, values_equal, CallableHandle, LoxValueView,
    ValueError,
};

verus! {

/// The state of an interpreter as a mathematical value.
pub struct InterpreterView {
    pub heap: HeapView,
    pub env: usize,
    pub globals: usize,
    pub output: Seq<char>,
    pub steps: u64,
    pub max_depth: usize,
    pub readings: Seq<u64>,
    pub clock: Seq<u64>,
}

/// Whether a list starts with another.
pub open spec fn is_prefix(start: Seq<u64>, whole: Seq<u64>) -> bool {
    &&& start.len() <= whole.len()
    &&& forall|i: int| 0 <= i < start.len() ==> start[i] == #[trigger] whole[i]
}

/// Why an evaluation stopped without a value.
pub enum Stop {
    /// With an error.
    Error(RuntimeError),
    /// At a read of the clock beyond the readings that the state lists.
    ClockRead,
}

/// The outcome of evaluating an expression.
pub struct Evaluated {
    pub state: InterpreterView,
    pub result: Result<LoxValueView, Stop>,
}

/// The outcome of executing statements: `Ok(Some(v))` where a `return`
/// statement yielded `v`, `Ok(None)` where execution ran to the end.
pub struct Executed {
    pub state: InterpreterView,
    pub result: Result<Option<LoxValueView>, Stop>,
}

/// The outcome of evaluating the arguments of a call.
pub struct Gathered {
    pub state: InterpreterView,
    pub result: Result<Seq<LoxValueView>, Stop>,
}

/// The outcome of building the method table of a class.
pub struct Methods {
    pub heap: HeapView,
    pub result: Result<Map<Seq<char>, LoxValueView>, Stop>,
}

/// How deep calls may nest unless the interpreter is told otherwise.
pub const DEFAULT_MAX_DEPTH: usize = 128;

/// How many loop iterations a run may start unless the interpreter is told
/// otherwise.
pub const DEFAULT_STEPS: u64 = 0xffff_ffff_ffff_ffff;

/// The state of a fresh interpreter: the initial heap, the global
/// environment as the current one, nothing printed, and the default
/// bounds.
pub open spec fn initial_state() -> InterpreterView {
    InterpreterView {
        heap: crate::heap::initial_heap(),
        env: 0,
        globals: 0,
        output: Seq::empty(),
        steps: DEFAULT_STEPS,
        max_depth: DEFAULT_MAX_DEPTH,
        readings: Seq::empty(),
        clock: Seq::empty(),
    }
}

/// A measure above every `steps`.
pub open spec fn beyond_steps() -> nat {
    0x1_0000_0000_0000_0000
}

impl InterpreterView {
    /// The state with another heap.
    pub open spec fn with_heap(self, heap: HeapView) -> InterpreterView {
        InterpreterView { heap, ..self }
    }

    /// The state with another list of the readings that the clock gives.
    pub open spec fn with_clock(self, clock: Seq<u64>) -> InterpreterView {
        InterpreterView { clock, ..self }
    }

    /// The state after the clock has been read once more.
    pub open spec fn with_reading(self, seconds: u64) -> InterpreterView {
        InterpreterView { readings: self.readings.push(seconds), ..self }
    }

    /// The state with another current environment.
    pub open spec fn with_env(self, env: usize) -> InterpreterView {
        InterpreterView { env, ..self }
    }

    /// The state after a line is printed.
    pub open spec fn printed(self, line: Seq<char>) -> InterpreterView {
        InterpreterView { output: self.output + line + "\n"@, ..self }
    }

    /// The state after one loop iteration is counted.
    pub open spec fn ticked(self) -> InterpreterView {
        InterpreterView { steps: (self.steps - 1) as u64, ..self }
    }

    /// The state after `name` is bound to `value` in the current
    /// environment.
    pub open spec fn defined(self, name: Seq<char>, value: LoxValueView) -> InterpreterView {
        self.with_heap(
            self.heap.with_environments(
                store_with(self.heap.environments, self.env, name, value),
            ),
        )
    }

    /// An expression's outcome: a value, in this state.
    pub open spec fn value(self, value: LoxValueView) -> Evaluated {
        Evaluated { state: self, result: Ok(value) }
    }

    /// An expression's outcome: an error, in this state.
    pub open spec fn fail(self, error: RuntimeError) -> Evaluated {
        Evaluated { state: self, result: Err(Stop::Error(error)) }
    }

    /// An expression's outcome: stopped, in this state.
    pub open spec fn stop(self, stop: Stop) -> Evaluated {
        Evaluated { state: self, result: Err(stop) }
    }

    /// A statement's outcome: done, in this state.
    pub open spec fn done(self, value: Option<LoxValueView>) -> Executed {
        Executed { state: self, result: Ok(value) }
    }

    /// A statement's outcome: an error, in this state.
    pub open spec fn abort(self, error: RuntimeError) -> Executed {
        Executed { state: self, result: Err(Stop::Error(error)) }
    }

    /// A statement's outcome: stopped, in this state.
    pub open spec fn halt(self, stop: Stop) -> Executed {
        Executed { state: self, result: Err(stop) }
    }
}

/// The value of a variable (or of `this`): read at its resolved distance
/// from the current environment, or in the global table where it has none.
pub open spec fn read_variable(state: InterpreterView, name: Token, distance: Option<usize>)
    -> Result<LoxValueView, Stop> {
    let found = match distance {
        Some(d) => value_at(state.heap.environments, state.env, name.lexeme@, d as nat),
        None => value_at(state.heap.environments, state.globals, name.lexeme@, 0),
    };
    match found {
        Some(value) => Ok(value),
        None => Err(Stop::Error(RuntimeError::UndefinedVariable(name))),
    }
}

/// The outcome of an assignment to a variable: the binding at its resolved
/// distance (or in the global table) is overwritten; where there is no such
/// binding, nothing changes and the assignment fails.
pub open spec fn write_variable(
    state: InterpreterView,
    name: Token,
    distance: Option<usize>,
    value: LoxValueView,
) -> Evaluated {
    let from = match distance {
        Some(d) => state.env,
        None => state.globals,
    };
    let hops: nat = match distance {
        Some(d) => d as nat,
        None => 0,
    };
    if assignable_at(state.heap.environments, from, name.lexeme@, hops) {
        state.with_heap(
            state.heap.with_environments(
                store_assigned(state.heap.environments, from, name.lexeme@, value, hops),
            ),
        ).value(value)
    } else {
        state.fail(RuntimeError::UndefinedVariable(name))
    }
}

/// The outcome of a unary operator on a value.
pub open spec fn unary_outcome(operator: Token, operand: LoxValueView) -> Result<
    LoxValueView,
    RuntimeError,
> {
    match operator.token_type {
        TokenType::Minus => match negated_value(operand) {
            Ok(value) => Ok(value),
            Err(_) => Err(RuntimeError::NegateNonNumberError(operator)),
        },
        TokenType::Bang => Ok(LoxValueView::Bool(!truthy(operand))),
        _ => Err(RuntimeError::InternalError(Fault::InvalidUnaryOperator)),
    }
}

/// The outcome of an arithmetic or comparison operator, with the error
/// that a type mismatch raises under this operator.
pub open spec fn checked(
    outcome: Result<LoxValueView, ValueError>,
    mismatch: RuntimeError,
    operator: Token,
) -> Result<LoxValueView, RuntimeError> {
    match outcome {
        Ok(value) => Ok(value),
        Err(ValueError::DivideByZero) => Err(RuntimeError::DivideByZeroError(operator)),
        Err(ValueError::TypeError) => Err(mismatch),
    }
}

/// The outcome of a binary operator on two values.
pub open spec fn binary_outcome(operator: Token, left: LoxValueView, right: LoxValueView)
    -> Result<LoxValueView, RuntimeError> {
    match operator.token_type {
        TokenType::Minus => checked(
            difference(left, right),
            RuntimeError::SubtractNonNumbers(operator),
            operator,
        ),
        TokenType::Slash => checked(
            quotient(left, right),
            RuntimeError::DivideNonNumbers(operator),
            operator,
        ),
        TokenType::Star => checked(
            product(left, right),
            RuntimeError::MultiplyNonNumbers(operator),
            operator,
        ),
        TokenType::Plus => checked(
            sum(left, right),
            RuntimeError::PlusTypeError(operator),
            operator,
        ),
        TokenType::Greater => checked(
            greater(left, right),
            RuntimeError::GreaterNonNumbers(operator),
            operator,
        ),
        TokenType::GreaterEqual => checked(
            greater_equal(left, right),
            RuntimeError::GreaterEqualNonNumbers(operator),
            operator,
        ),
        TokenType::Less => checked(
            less(left, right),
            RuntimeError::LessNonNumbers(operator),
            operator,
        ),
        TokenType::LessEqual => checked(
            less_equal(left, right),
            RuntimeError::LessEqualNonNumbers(operator),
            operator,
        ),
        TokenType::BangEqual => Ok(LoxValueView::Bool(!values_equal(left, right))),
        TokenType::EqualEqual => Ok(LoxValueView::Bool(values_equal(left, right))),
        _ => Err(RuntimeError::InternalError(Fault::InvalidBinaryOperator)),
    }
}

/// The outcome of reading a property of a value.
pub open spec fn get_outcome(state: InterpreterView, target: LoxValueView, name: Token)
    -> Evaluated {
    match target {
        LoxValueView::Instance(instance) => match state.heap.property(instance, name) {
            Ok(value) => state.with_heap(state.heap.after_property(instance, name.lexeme@)).value(
                value,
            ),
            Err(error) => state.with_heap(
                state.heap.after_property(instance, name.lexeme@),
            ).fail(error),
        },
        _ => state.fail(RuntimeError::InvalidGetTarget(name)),
    }
}

/// The outcome of `super.method`: the method is looked up from the class
/// bound to `super` at the resolved distance and bound to the instance
/// bound to `this` one scope nearer.
pub open spec fn super_outcome(state: InterpreterView, method: Token, distance: Option<usize>)
    -> Evaluated {
    match distance {
        None => state.fail(RuntimeError::InternalError(Fault::UnresolvedSuper)),
        Some(d) => if d == 0 {
            state.fail(RuntimeError::InternalError(Fault::MissingThis))
        } else {
            match value_at(state.heap.environments, state.env, "super"@, d as nat) {
                Some(LoxValueView::Class(class)) => match value_at(
                    state.heap.environments,
                    state.env,
                    "this"@,
                    (d - 1) as nat,
                ) {
                    Some(LoxValueView::Instance(instance)) => match state.heap.method_of(
                        class,
                        method.lexeme@,
                    ) {
                        Some(found) => state.with_heap(
                            state.heap.after_bind_stored(found, instance),
                        ).value(LoxValueView::Func(state.heap.functions.len() as usize)),
                        None => state.fail(RuntimeError::UndefinedProperty(method)),
                    },
                    _ => state.fail(RuntimeError::InternalError(Fault::MissingThis)),
                },
                _ => state.fail(RuntimeError::InternalError(Fault::MissingSuper)),
            }
        },
    }
}

/// The environment of a call: enclosed by the function's closure, it binds
/// each parameter to the argument in its place.
pub open spec fn call_bindings(params: Seq<Token>, arguments: Seq<LoxValueView>, upto: nat)
    -> Map<Seq<char>, LoxValueView>
    decreases upto,
{
    if upto == 0 {
        Map::empty()
    } else {
        call_bindings(params, arguments, (upto - 1) as nat).insert(
            params[upto - 1].lexeme@,
            arguments[upto - 1],
        )
    }
}

/// The number of arguments that a call of a callable value must pass.
pub open spec fn arity_of(heap: HeapView, callable: CallableHandle) -> nat {
    match callable {
        CallableHandle::Func(handle) => if handle < heap.functions.len() {
            heap.functions[handle as int].arity_of()
        } else {
            0
        },
        CallableHandle::Class(handle) => heap.class_arity(handle),
    }
}

/// The method table of a class under construction: each declaration among
/// `methods[from..]` becomes a function object closed over `closure`, and
/// the table binds the method's name to it; the method named `init` is the
/// initializer.
pub open spec fn methods_built(
    heap: HeapView,
    methods: Seq<Stmt>,
    from: nat,
    closure: usize,
    table: Map<Seq<char>, LoxValueView>,
) -> Methods
    decreases methods.len() - from,
{
    if from >= methods.len() {
        Methods { heap, result: Ok(table) }
    } else {
        match methods[from as int] {
            Stmt::Func(declaration) => methods_built(
                heap.with_function(
                    Callable::Function(
                        LoxFunc {
                            declaration,
                            closure,
                            is_initializer: declaration.name.lexeme@ == "init"@,
                        },
                    ),
                ),
                methods,
                from + 1,
                closure,
                table.insert(
                    declaration.name.lexeme@,
                    LoxValueView::Func(heap.functions.len() as usize),
                ),
            ),
            _ => Methods {
                heap,
                result: Err(Stop::Error(RuntimeError::InternalError(Fault::InvalidMethod))),
            },
        }
    }
}

/// The outcome of evaluating an expression.
pub open spec fn eval_expr(state: InterpreterView, expr: Expr, depth: nat) -> Evaluated
    decreases depth, 2nat, expr, 0nat,
{
    match expr {
        Expr::Literal(literal) => state.value(literal_value(literal@)),
        Expr::Grouping(inner) => eval_expr(state, *inner, depth),
        Expr::Unary(operator, operand) => {
            let operand = eval_expr(state, *operand, depth);
            match operand.result {
                Err(stop) => operand,
                Ok(value) => match unary_outcome(operator, value) {
                    Ok(value) => operand.state.value(value),
                    Err(error) => operand.state.fail(error),
                },
            }
        },
        Expr::Binary(left, operator, right) => {
            let left = eval_expr(state, *left, depth);
            match left.result {
                Err(stop) => left,
                Ok(left_value) => {
                    let right = eval_expr(left.state, *right, depth);
                    match right.result {
                        Err(stop) => right,
                        Ok(right_value) => match binary_outcome(
                            operator,
                            left_value,
                            right_value,
                        ) {
                            Ok(value) => right.state.value(value),
                            Err(error) => right.state.fail(error),
                        },
                    }
                },
            }
        },
        Expr::Var(name, distance) => Evaluated {
            state,
            result: read_variable(state, name, distance),
        },
        Expr::Assign(name, value, distance) => {
            let value = eval_expr(state, *value, depth);
            match value.result {
                Err(stop) => value,
                Ok(assigned) => write_variable(value.state, name, distance, assigned),
            }
        },
        Expr::Logical(left, operator, right) => {
            let left = eval_expr(state, *left, depth);
            match left.result {
                Err(stop) => left,
                Ok(left_value) => if operator.token_type == TokenType::Or {
                    if truthy(left_value) {
                        left
                    } else {
                        eval_expr(left.state, *right, depth)
                    }
                } else {
                    if !truthy(left_value) {
                        left
                    } else {
                        eval_expr(left.state, *right, depth)
                    }
                },
            }
        },
        Expr::Call(callee, arguments, paren) => {
            let callee = eval_expr(state, *callee, depth);
            match callee.result {
                Err(stop) => callee,
                Ok(callee_value) => {
                    let gathered = eval_args(callee.state, arguments, 0, Seq::empty(), depth);
                    match gathered.result {
                        Err(stop) => gathered.state.stop(stop),
                        Ok(values) => match callable_of(callee_value) {
                            None => gathered.state.fail(RuntimeError::CallOnNonCallable(paren)),
                            Some(callable) => if values.len() != arity_of(
                                gathered.state.heap,
                                callable,
                            ) {
                                gathered.state.fail(
                                    RuntimeError::WrongArity(
                                        paren,
                                        values.len() as usize,
                                        arity_of(gathered.state.heap, callable) as usize,
                                    ),
                                )
                            } else {
                                call_value(gathered.state, callable, values, paren, depth)
                            },
                        },
                    }
                },
            }
        },
        Expr::Get(target, name) => {
            let target = eval_expr(state, *target, depth);
            match target.result {
                Err(stop) => target,
                Ok(target_value) => get_outcome(target.state, target_value, name),
            }
        },
        Expr::SetProperty(target, name, value) => {
            let target = eval_expr(state, *target, depth);
            match target.result {
                Err(stop) => target,
                Ok(LoxValueView::Instance(instance)) => {
                    let value = eval_expr(target.state, *value, depth);
                    match value.result {
                        Err(stop) => value,
                        Ok(assigned) => if instance < value.state.heap.instances.len() {
                            value.state.with_heap(
                                value.state.heap.with_field(instance, name.lexeme@, assigned),
                            ).value(assigned)
                        } else {
                            value.state.fail(RuntimeError::InternalError(Fault::DanglingInstance))
                        },
                    }
                },
                Ok(_) => target.state.fail(RuntimeError::InvalidGetTarget(name)),
            }
        },
        Expr::This(keyword, distance) => Evaluated {
            state,
            result: read_variable(state, keyword, distance),
        },
        Expr::Super(keyword, method, distance) => super_outcome(state, method, distance),
    }
}

/// The outcome of evaluating the arguments `arguments[from..]` of a call,
/// left to right, after `values`.
pub open spec fn eval_args(
    state: InterpreterView,
    arguments: Vec<Expr>,
    from: nat,
    values: Seq<LoxValueView>,
    depth: nat,
) -> Gathered
    decreases depth, 2nat, arguments, arguments@.len() - from,
{
    if from >= arguments@.len() {
        Gathered { state, result: Ok(values) }
    } else {
        let argument = eval_expr(state, arguments@[from as int], depth);
        match argument.result {
            Err(stop) => Gathered { state: argument.state, result: Err(stop) },
            Ok(value) => eval_args(argument.state, arguments, from + 1, values.push(value), depth),
        }
    }
}

/// The outcome of calling a callable value with arguments of the right
/// number.
pub open spec fn call_value(
    state: InterpreterView,
    callable: CallableHandle,
    arguments: Seq<LoxValueView>,
    paren: Token,
    depth: nat,
) -> Evaluated
    decreases depth, 1nat, paren, 1nat,
{
    match callable {
        CallableHandle::Func(handle) => if handle >= state.heap.functions.len() {
            state.fail(RuntimeError::InternalError(Fault::DanglingFunction))
        } else {
            match state.heap.functions[handle as int] {
                Callable::Native(_) => if state.readings.len() < state.clock.len() {
                    let seconds = state.clock[state.readings.len() as int];
                    state.with_reading(seconds).value(
                        LoxValueView::Number(crate::number::bits_of_integer(seconds)),
                    )
                } else {
                    state.stop(Stop::ClockRead)
                },
                Callable::Function(function) => call_function(
                    state,
                    function,
                    arguments,
                    paren,
                    depth,
                ),
            }
        },
        CallableHandle::Class(class) => if class >= state.heap.classes.len() {
            state.fail(RuntimeError::InternalError(Fault::DanglingClass))
        } else {
            let instance = state.heap.instances.len() as usize;
            let created = state.with_heap(
                state.heap.with_instance(
                    LoxInstanceView {
                        class,
                        class_name: state.heap.classes[class as int].name,
                        state: Map::empty(),
                    },
                ),
            );
            match created.heap.method_of(class, "init"@) {
                None => created.value(LoxValueView::Instance(instance)),
                Some(init) => {
                    let bound = created.heap.bound(init, instance);
                    let ready = created.with_heap(created.heap.after_bind(init, instance));
                    let called = call_function(ready, bound, arguments, paren, depth);
                    match called.result {
                        Err(stop) => called,
                        Ok(_) => called.state.value(LoxValueView::Instance(instance)),
                    }
                },
            }
        },
    }
}

/// The outcome of calling a function of the program: its body runs in a
/// new environment, enclosed by the function's closure, that binds the
/// parameters to the arguments. An initializer yields the instance it was
/// bound to, whatever its body returns.
pub open spec fn call_function(
    state: InterpreterView,
    function: LoxFunc,
    arguments: Seq<LoxValueView>,
    paren: Token,
    depth: nat,
) -> Evaluated
    decreases depth, 1nat, paren, 0nat,
{
    if arguments.len() != function.declaration.params@.len() {
        state.fail(
            RuntimeError::WrongArity(
                paren,
                arguments.len() as usize,
                function.declaration.params@.len() as usize,
            ),
        )
    } else if depth == 0 {
        state.fail(RuntimeError::StackOverflow(paren))
    } else {
        let frame = EnvironmentView {
            values: call_bindings(function.declaration.params@, arguments, arguments.len()),
            enclosing: Some(function.closure),
        };
        let body = exec_block(state, function.declaration.body, frame, (depth - 1) as nat);
        match body.result {
            Err(stop) => body.state.stop(stop),
            Ok(returned) => if function.is_initializer {
                match value_at(body.state.heap.environments, function.closure, "this"@, 0) {
                    Some(this) => body.state.value(this),
                    None => body.state.fail(RuntimeError::InternalError(Fault::MissingThis)),
                }
            } else {
                match returned {
                    Some(value) => body.state.value(value),
                    None => body.state.value(LoxValueView::Nil),
                }
            },
        }
    }
}

/// The outcome of executing statements in a new environment: the
/// environment becomes the current one while they run, and the one that
/// was current before is current again afterwards, however they end.
pub open spec fn exec_block(
    state: InterpreterView,
    statements: Vec<Stmt>,
    environment: EnvironmentView,
    depth: nat,
) -> Executed
    decreases depth, 3nat, statements, statements@.len() + 1,
{
    let inner = state.with_heap(state.heap.with_environment(environment)).with_env(
        state.heap.environments.len() as usize,
    );
    let ran = exec_stmts(inner, statements, 0, depth);
    Executed { state: ran.state.with_env(state.env), result: ran.result }
}

/// The outcome of executing the statements `statements[from..]` in order:
/// execution stops at the first that fails or returns.
pub open spec fn exec_stmts(state: InterpreterView, statements: Vec<Stmt>, from: nat, depth: nat)
    -> Executed
    decreases depth, 3nat, statements, statements@.len() - from,
{
    if from >= statements@.len() {
        state.done(None)
    } else {
        let first = exec_stmt(state, statements@[from as int], depth);
        match first.result {
            Ok(None) => exec_stmts(first.state, statements, from + 1, depth),
            _ => first,
        }
    }
}

/// The outcome of a `while` statement.
pub open spec fn run_while(state: InterpreterView, stmt: Stmt, depth: nat) -> Executed
    decreases depth, 3nat, stmt, state.steps as nat,
{
    match stmt {
        Stmt::While(condition, body) => if state.steps == 0 {
            state.abort(RuntimeError::IterationLimit)
        } else {
            let condition = eval_expr(state.ticked(), condition, depth);
            match condition.result {
                Err(stop) => condition.state.halt(stop),
                Ok(value) => if !truthy(value) {
                    condition.state.done(None)
                } else {
                    let body = exec_stmt(condition.state, *body, depth);
                    match body.result {
                        Ok(None) => if body.state.steps < state.steps {
                            run_while(body.state, stmt, depth)
                        } else {
                            body.state.abort(RuntimeError::IterationLimit)
                        },
                        _ => body,
                    }
                },
            }
        },
        _ => state.done(None),
    }
}

/// The outcome of executing a statement.
pub open spec fn exec_stmt(state: InterpreterView, stmt: Stmt, depth: nat) -> Executed
    decreases depth, 3nat, stmt, beyond_steps(),
{
    match stmt {
        Stmt::Print(expr) => {
            let value = eval_expr(state, expr, depth);
            match value.result {
                Err(stop) => value.state.halt(stop),
                Ok(printed) => value.state.printed(value.state.heap.display(printed)).done(None),
            }
        },
        Stmt::Expr(expr) => {
            let value = eval_expr(state, expr, depth);
            match value.result {
                Err(stop) => value.state.halt(stop),
                Ok(_) => value.state.done(None),
            }
        },
        Stmt::Var(name, initializer) => {
            let value = eval_expr(state, initializer, depth);
            match value.result {
                Err(stop) => value.state.halt(stop),
                Ok(initial) => if value.state.env < value.state.heap.environments.len() {
                    value.state.defined(name.lexeme@, initial).done(None)
                } else {
                    value.state.abort(RuntimeError::InternalError(Fault::DanglingEnvironment))
                },
            }
        },
        Stmt::Block(statements) => exec_block(
            state,
            statements,
            EnvironmentView { values: Map::empty(), enclosing: Some(state.env) },
            depth,
        ),
        Stmt::If(condition, then_branch, else_branch) => {
            let condition = eval_expr(state, condition, depth);
            match condition.result {
                Err(stop) => condition.state.halt(stop),
                Ok(value) => if truthy(value) {
                    exec_stmt(condition.state, *then_branch, depth)
                } else {
                    match *else_branch {
                        Some(otherwise) => exec_stmt(condition.state, otherwise, depth),
                        None => condition.state.done(None),
                    }
                },
            }
        },
        Stmt::While(condition, body) => run_while(state, stmt, depth),
        Stmt::Func(declaration) => if state.env < state.heap.environments.len() {
            state.with_heap(
                state.heap.with_function(
                    Callable::Function(
                        LoxFunc { declaration, closure: state.env, is_initializer: false },
                    ),
                ),
            ).defined(
                declaration.name.lexeme@,
                LoxValueView::Func(state.heap.functions.len() as usize),
            ).done(None)
        } else {
            state.abort(RuntimeError::InternalError(Fault::DanglingEnvironment))
        },
        Stmt::Return(keyword, value) => {
            let value = eval_expr(state, *value, depth);
            match value.result {
                Err(stop) => value.state.halt(stop),
                Ok(returned) => value.state.done(Some(returned)),
            }
        },
        Stmt::Class(name, superclass, methods) => match superclass {
            None => declare_class(state, name, None, state.env, methods@),
            Some(superclass) => {
                let parent = eval_expr(state, superclass, depth);
                match parent.result {
                    Err(stop) => parent.state.halt(stop),
                    Ok(LoxValueView::Class(handle)) => {
                        let closure = parent.state.heap.environments.len() as usize;
                        let scoped = parent.state.with_heap(
                            parent.state.heap.with_environment(
                                EnvironmentView {
                                    values: Map::<Seq<char>, LoxValueView>::empty().insert(
                                        "super"@,
                                        LoxValueView::Class(handle),
                                    ),
                                    enclosing: Some(parent.state.env),
                                },
                            ),
                        );
                        declare_class(scoped, name, Some(handle), closure, methods@)
                    },
                    Ok(_) => parent.state.abort(RuntimeError::InvalidSuperclass(name)),
                }
            },
        },
    }
}

/// The outcome of a class declaration once its superclass is known: the
/// methods become function objects closed over `closure`, the class joins
/// the heap, and the current environment binds the class's name to it.
pub open spec fn declare_class(
    state: InterpreterView,
    name: Token,
    superclass: Option<usize>,
    closure: usize,
    methods: Seq<Stmt>,
) -> Executed {
    let built = methods_built(state.heap, methods, 0, closure, Map::empty());
    match built.result {
        Err(stop) => state.with_heap(built.heap).halt(stop),
        Ok(table) => if state.env < built.heap.environments.len() {
            state.with_heap(
                built.heap.with_class(
                    LoxClassView { name: name.lexeme@, superclass, methods: table },
                ),
            ).defined(name.lexeme@, LoxValueView::Class(built.heap.classes.len() as usize)).done(
                None,
            )
        } else {
            state.with_heap(built.heap).abort(
                RuntimeError::InternalError(Fault::DanglingEnvironment),
            )
        },
    }
}

/// The outcome of a run: the statements are executed in order at the
/// state's full depth, until one fails. A value returned at the top level
/// is dropped.
pub open spec fn run_all(state: InterpreterView, statements: Vec<Stmt>, from: nat) -> Executed
    decreases statements@.len() - from,
{
    if from >= statements@.len() {
        state.done(None)
    } else {
        let first = exec_stmt(state, statements@[from as int], state.max_depth as nat);
        match first.result {
            Ok(_) => run_all(first.state, statements, from + 1),
            Err(stop) => first,
        }
    }
}

} // verus!
