//! The tree-walking interpreter. Every function here is verified to
//! compute what `semantics` says the program means.
//!
//! The interpreter reads the system clock where the program calls
//! `clock`, and notes each reading. The contracts take the readings as
//! given: under every clock whose readings start with those that the
//! interpreter took, the meaning of the program is the state in which the
//! interpreter ended and the result that it returned.

use vstd::prelude::*;
use vstd::string::StringExecFns;
use std::time::{Duration, SystemTime, UNIX_EPOCH};
use crate::callables::{share, Callable, ClockFunc, LoxFunc};
use crate::environment::Environment;
use crate::errors::{value_outcome, Fault, RuntimeError};
use crate::expr::Expr;
use crate::heap::Heap;
use crate::lox_class::LoxClass;
use crate::lox_instance::LoxInstance;
use crate::number::Number;
pub use crate::semantics::{DEFAULT_MAX_DEPTH, DEFAULT_STEPS};
use crate::semantics::{
    arity_of, binary_outcome, call_bindings, call_function, call_value, declare_class,
    eval_args, eval_expr, exec_block, exec_stmt, exec_stmts, get_outcome, methods_built,
    is_prefix, read_variable, run_all, run_while, super_outcome, unary_outcome, write_variable,
    Evaluated, Executed, InterpreterView, Stop,
};
use crate::stmt::Stmt;
use crate::table::Table;
use crate::text::same_text;
use crate::token::{Token, TokenType};
use crate::value::{CallableHandle, LoxValue, LoxValueView, ValueError};

verus! {

/// The time of the system clock, of which nothing is known here.
#[verifier::external_type_specification]
#[verifier::external_body]
pub struct ExSystemTime(std::time::SystemTime);

/// An interpreter: the heap, the current and the global environment, what
/// the program has printed so far, the two bounds on a run, and the
/// readings of the clock that the program has taken.
#[derive(Debug)]
pub struct Interpreter {
    pub heap: Heap,
    pub env: usize,
    pub globals: usize,
    pub output: String,
    pub steps: u64,
    pub max_depth: usize,
    pub readings: Vec<u64>,
}

impl View for Interpreter {
    type V = InterpreterView;

    open spec fn view(&self) -> InterpreterView {
        InterpreterView {
            heap: self.heap@,
            env: self.env,
            globals: self.globals,
            output: self.output@,
            steps: self.steps,
            max_depth: self.max_depth,
            readings: self.readings@,
            clock: self.readings@,
        }
    }
}

/// The outcome of an evaluation as the mathematical functions give it.
pub open spec fn value_result(r: Result<LoxValue, RuntimeError>) -> Result<LoxValueView, Stop> {
    match r {
        Ok(value) => Ok(value@),
        Err(error) => Err(Stop::Error(error)),
    }
}

/// The outcome of an execution as the mathematical functions give it.
pub open spec fn flow_result(r: Result<Option<LoxValue>, RuntimeError>) -> Result<
    Option<LoxValueView>,
    Stop,
> {
    match r {
        Ok(Some(value)) => Ok(Some(value@)),
        Ok(None) => Ok(None),
        Err(error) => Err(Stop::Error(error)),
    }
}

/// The views of a sequence of values.
pub open spec fn values_view(values: Seq<LoxValue>) -> Seq<LoxValueView> {
    Seq::new(values.len(), |i: int| values[i]@)
}

/// Lists that start one another do so in a chain.
pub proof fn lemma_prefixes_chain()
    ensures
        forall|a: Seq<u64>, b: Seq<u64>, c: Seq<u64>|
            #![trigger is_prefix(a, b), is_prefix(b, c)]
            is_prefix(a, b) && is_prefix(b, c) ==> is_prefix(a, c),
        forall|a: Seq<u64>| #[trigger] is_prefix(a, a),
{
}

/// Calls `SystemTime::now` of std, which reads the system clock. Nothing
/// is claimed of the time it returns.
#[verifier::external_body]
fn time_now() -> SystemTime {
    SystemTime::now()
}

/// Calls `SystemTime::duration_since` of std with the Unix epoch: how long
/// after the epoch the time lies, or nothing where it lies before it.
/// Nothing is claimed of the duration.
#[verifier::external_body]
fn since_epoch(time: &SystemTime) -> Option<Duration> {
    match time.duration_since(UNIX_EPOCH) {
        Ok(elapsed) => Some(elapsed),
        Err(_) => None,
    }
}

/// Calls `Duration::as_secs` of std: the whole seconds of a duration.
/// Nothing is claimed of the number.
#[verifier::external_body]
fn whole_seconds(elapsed: &Duration) -> u64 {
    elapsed.as_secs()
}

/// Reads the system clock: the whole seconds since the Unix epoch, or 0
/// where the clock is set before it. The number depends on the time of
/// the call, so nothing is promised of it; `ClockFunc::seconds_of` says
/// what is made of each answer of the clock.
fn seconds_since_epoch() -> u64 {
    let now = time_now();
    let elapsed = match since_epoch(&now) {
        Some(elapsed) => Some(whole_seconds(&elapsed)),
        None => None,
    };
    ClockFunc::seconds_of(elapsed)
}

/// Applies a unary operator.
fn unary(operator: &Token, operand: &LoxValue) -> (r: Result<LoxValue, RuntimeError>)
    ensures
        value_outcome(r) == unary_outcome(*operator, operand@),
{
    match operator.token_type {
        TokenType::Minus => match operand.negate_number() {
            Ok(value) => Ok(value),
            Err(_) => Err(RuntimeError::NegateNonNumberError(operator.clone())),
        },
        TokenType::Bang => Ok(LoxValue::Bool(!operand.is_truthy())),
        _ => Err(RuntimeError::InternalError(Fault::InvalidUnaryOperator)),
    }
}

/// Gives the error of a failed operator its place in the program.
fn check(outcome: Result<LoxValue, ValueError>, mismatch: RuntimeError, operator: &Token) -> (r:
    Result<LoxValue, RuntimeError>)
    ensures
        value_outcome(r) == crate::semantics::checked(
            crate::value::outcome_view(outcome),
            mismatch,
            *operator,
        ),
{
    match outcome {
        Ok(value) => Ok(value),
        Err(ValueError::DivideByZero) => Err(RuntimeError::DivideByZeroError(operator.clone())),
        Err(ValueError::TypeError) => Err(mismatch),
    }
}

/// Applies a binary operator.
fn binary(operator: &Token, left: &LoxValue, right: LoxValue) -> (r: Result<
    LoxValue,
    RuntimeError,
>)
    ensures
        value_outcome(r) == binary_outcome(*operator, left@, right@),
{
    match operator.token_type {
        TokenType::Minus => check(
            left.subtract(right),
            RuntimeError::SubtractNonNumbers(operator.clone()),
            operator,
        ),
        TokenType::Slash => check(
            left.divide(right),
            RuntimeError::DivideNonNumbers(operator.clone()),
            operator,
        ),
        TokenType::Star => check(
            left.multiply(right),
            RuntimeError::MultiplyNonNumbers(operator.clone()),
            operator,
        ),
        TokenType::Plus => check(
            left.plus(right),
            RuntimeError::PlusTypeError(operator.clone()),
            operator,
        ),
        TokenType::Greater => check(
            left.is_greater(right),
            RuntimeError::GreaterNonNumbers(operator.clone()),
            operator,
        ),
        TokenType::GreaterEqual => check(
            left.is_greater_equal(right),
            RuntimeError::GreaterEqualNonNumbers(operator.clone()),
            operator,
        ),
        TokenType::Less => check(
            left.is_less(right),
            RuntimeError::LessNonNumbers(operator.clone()),
            operator,
        ),
        TokenType::LessEqual => check(
            left.is_less_equal(right),
            RuntimeError::LessEqualNonNumbers(operator.clone()),
            operator,
        ),
        TokenType::BangEqual => match left.is_not_equal(&right) {
            Ok(value) => Ok(value),
            Err(_) => Err(RuntimeError::InternalError(Fault::InvalidBinaryOperator)),
        },
        TokenType::EqualEqual => match left.is_equal(&right) {
            Ok(value) => Ok(value),
            Err(_) => Err(RuntimeError::InternalError(Fault::InvalidBinaryOperator)),
        },
        _ => Err(RuntimeError::InternalError(Fault::InvalidBinaryOperator)),
    }
}

impl ClockFunc {
    /// The reading that an answer of the system clock stands for: the
    /// seconds elapsed since the Unix epoch, or 0 where the clock is set
    /// before the epoch and has no such answer.
    pub fn seconds_of(elapsed: Option<u64>) -> (r: u64)
        ensures
            r == (match elapsed {
                Some(seconds) => seconds,
                None => 0,
            }),
    {
        match elapsed {
            Some(seconds) => seconds,
            None => 0,
        }
    }

    /// The value that the clock yields for a reading of so many seconds.
    pub open spec fn reading_of(seconds: u64) -> LoxValue {
        LoxValue::Number(Number { bits: crate::number::bits_of_integer(seconds) })
    }

    /// The value that the clock yields for a reading of so many seconds.
    pub fn reading(seconds: u64) -> (r: LoxValue)
        ensures
            r == ClockFunc::reading_of(seconds),
    {
        LoxValue::Number(Number::from_integer(seconds))
    }

    /// Reads the clock: a number, the seconds since the Unix epoch at the
    /// time of the call. The interpreter notes the reading; everything else
    /// in it is left as it is.
    pub fn call(&self, interpreter: &mut Interpreter, arguments: Vec<LoxValue>) -> (r: Result<
        LoxValue,
        RuntimeError,
    >)
        ensures
            final(interpreter).readings@.len() == old(interpreter).readings@.len() + 1,
            final(interpreter)@ == old(interpreter)@.with_reading(
                final(interpreter).readings@.last(),
            ).with_clock(final(interpreter).readings@),
            r matches Ok(value) && value == ClockFunc::reading_of(
                final(interpreter).readings@.last(),
            ),
    {
        let seconds = seconds_since_epoch();
        interpreter.readings.push(seconds);
        Ok(ClockFunc::reading(seconds))
    }
}

impl LoxFunc {
    /// Calls the function: its body runs in a new environment, enclosed by
    /// the function's closure, that binds the parameters to the arguments.
    /// `paren` is where the call stands in the program and `depth` how far
    /// calls may still nest.
    pub fn call(
        &self,
        interpreter: &mut Interpreter,
        arguments: Vec<LoxValue>,
        paren: &Token,
        depth: usize,
    ) -> (r: Result<LoxValue, RuntimeError>)
        ensures
            final(interpreter)@.steps <= old(interpreter)@.steps,
            is_prefix(old(interpreter)@.readings, final(interpreter)@.readings),
            forall|clock: Seq<u64>|
                #![trigger is_prefix(final(interpreter)@.readings, clock)]
                is_prefix(final(interpreter)@.readings, clock) ==> call_function(
                    old(interpreter)@.with_clock(clock),
                    *self,
                    values_view(arguments@),
                    *paren,
                    depth as nat,
                ) == (Evaluated {
                    state: final(interpreter)@.with_clock(clock),
                    result: value_result(r),
                }),
        decreases depth, 1nat, paren, 0nat,
    {
        proof {
            lemma_prefixes_chain();
        }
        let count = self.declaration.params.len();
        if arguments.len() != count {
            return Err(RuntimeError::WrongArity(paren.clone(), arguments.len(), count));
        }
        if depth == 0 {
            return Err(RuntimeError::StackOverflow(paren.clone()));
        }
        let mut frame = Environment::from_parent(self.closure);
        let mut i: usize = 0;
        while i < count
            invariant
                i <= count,
                count == self.declaration.params@.len(),
                count == arguments@.len(),
                frame@.enclosing == Some(self.closure),
                frame@.values == call_bindings(
                    self.declaration.params@,
                    values_view(arguments@),
                    i as nat,
                ),
            decreases count - i,
        {
            frame.define(self.declaration.params[i].lexeme.clone(), arguments[i].clone());
            i += 1;
        }
        let returned = match interpreter.interpret_block(&self.declaration.body, frame, depth - 1) {
            Ok(returned) => returned,
            Err(error) => {
                return Err(error);
            },
        };
        if self.is_initializer {
            match Environment::get_at(
                &interpreter.heap.environments,
                self.closure,
                &String::from_str("this"),
                0,
            ) {
                Ok(this) => Ok(this),
                Err(_) => Err(RuntimeError::InternalError(Fault::MissingThis)),
            }
        } else {
            match returned {
                Some(value) => Ok(value),
                None => Ok(LoxValue::Nil),
            }
        }
    }
}

impl LoxClass {
    /// Calls the class with the handle `class`: a new instance is made, the
    /// class's `init` method, its own or inherited, is bound to it and
    /// called with the arguments, and the call yields the instance whatever
    /// `init` returns.
    pub fn call(
        interpreter: &mut Interpreter,
        class: usize,
        arguments: Vec<LoxValue>,
        paren: &Token,
        depth: usize,
    ) -> (r: Result<LoxValue, RuntimeError>)
        ensures
            final(interpreter)@.steps <= old(interpreter)@.steps,
            is_prefix(old(interpreter)@.readings, final(interpreter)@.readings),
            forall|clock: Seq<u64>|
                #![trigger is_prefix(final(interpreter)@.readings, clock)]
                is_prefix(final(interpreter)@.readings, clock) ==> call_value(
                    old(interpreter)@.with_clock(clock),
                    CallableHandle::Class(class),
                    values_view(arguments@),
                    *paren,
                    depth as nat,
                ) == (Evaluated {
                    state: final(interpreter)@.with_clock(clock),
                    result: value_result(r),
                }),
        decreases depth, 1nat, paren, 1nat,
    {
        proof {
            lemma_prefixes_chain();
        }
        if class >= interpreter.heap.classes.len() {
            return Err(RuntimeError::InternalError(Fault::DanglingClass));
        }
        let created = match interpreter.heap.classes[class].instantiate(class) {
            Ok(created) => created,
            Err(error) => {
                return Err(error);
            },
        };
        let instance = interpreter.heap.add_instance(created);
        match LoxClass::find_method(&mut interpreter.heap, class, "init", instance) {
            Some(init) => {
                match init.call(interpreter, arguments, paren, depth) {
                    Ok(_) => Ok(LoxValue::Instance(instance)),
                    Err(error) => Err(error),
                }
            },
            None => Ok(LoxValue::Instance(instance)),
        }
    }
}

impl Interpreter {
    /// A fresh interpreter: the initial heap, the global environment as
    /// the current one, nothing printed, and the default bounds.
    pub fn new() -> (r: Interpreter)
        ensures
            r@ == crate::semantics::initial_state(),
    {
        Interpreter {
            heap: Heap::new(),
            env: 0,
            globals: 0,
            output: String::new(),
            steps: DEFAULT_STEPS,
            max_depth: DEFAULT_MAX_DEPTH,
            readings: Vec::new(),
        }
    }

    /// Sets the two bounds on a run: how deep calls may nest and how many
    /// loop iterations may still start.
    pub fn set_limits(&mut self, max_depth: usize, steps: u64)
        ensures
            final(self)@ == (InterpreterView { max_depth, steps, ..old(self)@ }),
    {
        self.max_depth = max_depth;
        self.steps = steps;
    }

    /// What the program has printed so far.
    pub fn output(&self) -> (r: &String)
        ensures
            r@ == self@.output,
    {
        &self.output
    }

    /// Hands out what the program has printed so far and starts over with
    /// nothing printed.
    pub fn take_output(&mut self) -> (r: String)
        ensures
            r@ == old(self)@.output,
            final(self)@ == (InterpreterView { output: Seq::<char>::empty(), ..old(self)@ }),
    {
        let mut taken = String::new();
        std::mem::swap(&mut taken, &mut self.output);
        taken
    }

    /// Runs a program: executes the statements in order until one fails,
    /// and returns the error of that one.
    #[verifier::loop_isolation(false)]
    pub fn interpret(&mut self, stmts: Vec<Stmt>) -> (r: Option<RuntimeError>)
        ensures
            final(self)@.steps <= old(self)@.steps,
            is_prefix(old(self)@.readings, final(self)@.readings),
            forall|clock: Seq<u64>|
                #![trigger is_prefix(final(self)@.readings, clock)]
                is_prefix(final(self)@.readings, clock) ==> run_all(
                    old(self)@.with_clock(clock),
                    stmts,
                    0,
                ) == (Executed {
                    state: final(self)@.with_clock(clock),
                    result: match r {
                        Some(error) => Err(Stop::Error(error)),
                        None => Ok(None),
                    },
                }),
    {
        proof {
            lemma_prefixes_chain();
        }
        let mut i: usize = 0;
        while i < stmts.len()
            invariant
                i <= stmts@.len(),
                self@.steps <= old(self)@.steps,
                is_prefix(old(self)@.readings, self@.readings),
                forall|clock: Seq<u64>|
                #![trigger is_prefix(self@.readings, clock)]
                is_prefix(self@.readings, clock) ==> run_all(
                        old(self)@.with_clock(clock),
                        stmts,
                        0,
                    ) == run_all(self@.with_clock(clock), stmts, i as nat),
            decreases stmts@.len() - i,
        {
            let depth = self.max_depth;
            match self.interpret_stmt(&stmts[i], depth) {
                Ok(_) => {},
                Err(error) => {
                    return Some(error);
                },
            }
            i += 1;
        }
        None
    }

    /// Reads a variable, or `this`.
    fn read(&self, name: &Token, distance: &Option<usize>) -> (r: Result<LoxValue, RuntimeError>)
        ensures
            value_result(r) == read_variable(self@, *name, *distance),
    {
        let found = match distance {
            Some(d) => Environment::get_at(&self.heap.environments, self.env, &name.lexeme, *d),
            None => Environment::get_at(&self.heap.environments, self.globals, &name.lexeme, 0),
        };
        match found {
            Ok(value) => Ok(value),
            Err(_) => Err(RuntimeError::UndefinedVariable(name.clone())),
        }
    }

    /// Assigns to a variable.
    fn write(&mut self, name: &Token, distance: &Option<usize>, value: LoxValue) -> (r: Result<
        LoxValue,
        RuntimeError,
    >)
        ensures
            final(self)@ == write_variable(old(self)@, *name, *distance, value@).state,
            value_result(r) == write_variable(old(self)@, *name, *distance, value@).result,
    {
        let kept = value.clone();
        let outcome = match distance {
            Some(d) => Environment::assign_at(
                &mut self.heap.environments,
                self.env,
                &name.lexeme,
                value,
                *d,
            ),
            None => Environment::assign_at(
                &mut self.heap.environments,
                self.globals,
                &name.lexeme,
                value,
                0,
            ),
        };
        match outcome {
            Ok(()) => Ok(kept),
            Err(_) => Err(RuntimeError::UndefinedVariable(name.clone())),
        }
    }

    /// Binds a name in the current environment. Fails only where the heap
    /// does not hold the current environment.
    fn define(&mut self, name: &String, value: LoxValue) -> (r: Result<(), RuntimeError>)
        ensures
            old(self)@.env < old(self)@.heap.environments.len() ==> r is Ok && final(self)@ == old(
                self,
            )@.defined(name@, value@),
            old(self)@.env >= old(self)@.heap.environments.len() ==> r == Err::<(), RuntimeError>(
                RuntimeError::InternalError(Fault::DanglingEnvironment),
            ) && final(self)@ == old(self)@,
    {
        if self.env < self.heap.environments.len() {
            let env = self.env;
            self.heap.environments[env].define(name.clone(), value);
            proof {
                assert(self@.heap.environments =~= old(self)@.defined(
                    name@,
                    value@,
                ).heap.environments);
            }
            Ok(())
        } else {
            Err(RuntimeError::InternalError(Fault::DanglingEnvironment))
        }
    }

    /// The number of arguments that a call of a callable value must pass.
    fn arity(&self, callable: &CallableHandle) -> (r: usize)
        ensures
            r == arity_of(self@.heap, *callable),
    {
        match callable {
            CallableHandle::Func(handle) => {
                if *handle < self.heap.functions.len() {
                    self.heap.functions[*handle].arity()
                } else {
                    0
                }
            },
            CallableHandle::Class(handle) => self.heap.class_arity(*handle),
        }
    }

    /// Reads a property of a value.
    fn get_property(&mut self, target: &LoxValue, name: &Token) -> (r: Result<
        LoxValue,
        RuntimeError,
    >)
        ensures
            final(self)@ == get_outcome(old(self)@, target@, *name).state,
            value_result(r) == get_outcome(old(self)@, target@, *name).result,
    {
        match target {
            LoxValue::Instance(instance) => LoxInstance::get(&mut self.heap, *instance, name),
            _ => Err(RuntimeError::InvalidGetTarget(name.clone())),
        }
    }

    /// Evaluates `super.method`.
    fn super_method(&mut self, method: &Token, distance: &Option<usize>) -> (r: Result<
        LoxValue,
        RuntimeError,
    >)
        ensures
            final(self)@ == super_outcome(old(self)@, *method, *distance).state,
            value_result(r) == super_outcome(old(self)@, *method, *distance).result,
    {
        let d = match distance {
            Some(d) => *d,
            None => {
                return Err(RuntimeError::InternalError(Fault::UnresolvedSuper));
            },
        };
        if d == 0 {
            return Err(RuntimeError::InternalError(Fault::MissingThis));
        }
        let class = match Environment::get_at(
            &self.heap.environments,
            self.env,
            &String::from_str("super"),
            d,
        ) {
            Ok(LoxValue::Class(class)) => class,
            _ => {
                return Err(RuntimeError::InternalError(Fault::MissingSuper));
            },
        };
        let instance = match Environment::get_at(
            &self.heap.environments,
            self.env,
            &String::from_str("this"),
            d - 1,
        ) {
            Ok(LoxValue::Instance(instance)) => instance,
            _ => {
                return Err(RuntimeError::InternalError(Fault::MissingThis));
            },
        };
        match self.heap.lookup_method(class, method.lexeme.as_str()) {
            Some(found) => Ok(self.heap.bind_stored(&found, instance)),
            None => Err(RuntimeError::UndefinedProperty(method.clone())),
        }
    }

    /// Calls a callable value with arguments of the right number.
    fn call(
        &mut self,
        callable: CallableHandle,
        arguments: Vec<LoxValue>,
        paren: &Token,
        depth: usize,
    ) -> (r: Result<LoxValue, RuntimeError>)
        ensures
            final(self)@.steps <= old(self)@.steps,
            is_prefix(old(self)@.readings, final(self)@.readings),
            forall|clock: Seq<u64>|
                #![trigger is_prefix(final(self)@.readings, clock)]
                is_prefix(final(self)@.readings, clock) ==> call_value(
                    old(self)@.with_clock(clock),
                    callable,
                    values_view(arguments@),
                    *paren,
                    depth as nat,
                ) == (Evaluated {
                    state: final(self)@.with_clock(clock),
                    result: value_result(r),
                }),
        decreases depth, 1nat, paren, 2nat,
    {
        proof {
            lemma_prefixes_chain();
        }
        match callable {
            CallableHandle::Func(handle) => {
                if handle >= self.heap.functions.len() {
                    return Err(RuntimeError::InternalError(Fault::DanglingFunction));
                }
                let function = match &self.heap.functions[handle] {
                    Callable::Function(function) => function.clone(),
                    Callable::Native(clock) => {
                        let clock = *clock;
                        let r = clock.call(self, arguments);
                        proof {
                            let taken = old(self)@.readings.len() as int;
                            assert forall|later: Seq<u64>|
                                is_prefix(self@.readings, later) implies call_value(
                                old(self)@.with_clock(later),
                                callable,
                                values_view(arguments@),
                                *paren,
                                depth as nat,
                            ) == (Evaluated {
                                state: self@.with_clock(later),
                                result: value_result(r),
                            }) by {
                                assert(later[taken] == self@.readings[taken]);
                                assert(self@.readings =~= old(self)@.readings.push(later[taken]));
                            }
                        }
                        return r;
                    },
                };
                function.call(self, arguments, paren, depth)
            },
            CallableHandle::Class(class) => LoxClass::call(self, class, arguments, paren, depth),
        }
    }

    /// Evaluates a call: the callee, then the arguments from left to right,
    /// then the checks that the callee can be called and takes so many
    /// arguments, then the call itself.
    #[verifier::loop_isolation(false)]
    fn interpret_call(&mut self, expr: &Expr, depth: usize) -> (r: Result<LoxValue, RuntimeError>)
        requires
            expr is Call,
        ensures
            final(self)@.steps <= old(self)@.steps,
            is_prefix(old(self)@.readings, final(self)@.readings),
            forall|clock: Seq<u64>|
                #![trigger is_prefix(final(self)@.readings, clock)]
                is_prefix(final(self)@.readings, clock) ==> eval_expr(
                    old(self)@.with_clock(clock),
                    *expr,
                    depth as nat,
                ) == (Evaluated {
                    state: final(self)@.with_clock(clock),
                    result: value_result(r),
                }),
        decreases depth, 2nat, expr, 0nat,
    {
        proof {
            lemma_prefixes_chain();
        }
        match expr {
            Expr::Call(callee, arguments, paren) => {
                let callee_value = self.interpret_expr(callee, depth)?;
                let ghost after_callee = self@;
                let mut values: Vec<LoxValue> = Vec::new();
                let mut i: usize = 0;
                proof {
                    assert(values_view(values@) =~= Seq::empty());
                }
                while i < arguments.len()
                    invariant
                        i <= arguments@.len(),
                        self@.steps <= old(self)@.steps,
                        is_prefix(after_callee.readings, self@.readings),
                        forall|clock: Seq<u64>|
                #![trigger is_prefix(self@.readings, clock)]
                is_prefix(self@.readings, clock) ==> eval_args(
                                after_callee.with_clock(clock),
                                *arguments,
                                0,
                                Seq::empty(),
                                depth as nat,
                            ) == eval_args(
                                self@.with_clock(clock),
                                *arguments,
                                i as nat,
                                values_view(values@),
                                depth as nat,
                            ),
                    decreases arguments@.len() - i,
                {
                    let ghost before = values_view(values@);
                    let value = self.interpret_expr(&arguments[i], depth)?;
                    values.push(value);
                    i += 1;
                    proof {
                        assert(values_view(values@) =~= before.push(value@));
                    }
                }
                let callable = match callee_value.get_callable() {
                    Some(callable) => callable,
                    None => {
                        return Err(RuntimeError::CallOnNonCallable(paren.clone()));
                    },
                };
                let expects = self.arity(&callable);
                if values.len() != expects {
                    return Err(RuntimeError::WrongArity(paren.clone(), values.len(), expects));
                }
                self.call(callable, values, paren, depth)
            },
            _ => Err(RuntimeError::InternalError(Fault::InvalidCall)),
        }
    }

    /// Evaluates an expression.
    fn interpret_expr(&mut self, expr: &Expr, depth: usize) -> (r: Result<LoxValue, RuntimeError>)
        ensures
            final(self)@.steps <= old(self)@.steps,
            is_prefix(old(self)@.readings, final(self)@.readings),
            forall|clock: Seq<u64>|
                #![trigger is_prefix(final(self)@.readings, clock)]
                is_prefix(final(self)@.readings, clock) ==> eval_expr(
                    old(self)@.with_clock(clock),
                    *expr,
                    depth as nat,
                ) == (Evaluated {
                    state: final(self)@.with_clock(clock),
                    result: value_result(r),
                }),
        decreases depth, 2nat, expr, 1nat,
    {
        proof {
            lemma_prefixes_chain();
        }
        match expr {
            Expr::Literal(literal) => match literal.value() {
                Some(value) => Ok(value),
                None => Err(RuntimeError::InternalError(Fault::InvalidLiteral)),
            },
            Expr::Grouping(inner) => self.interpret_expr(inner, depth),
            Expr::Unary(operator, operand) => {
                let value = self.interpret_expr(operand, depth)?;
                unary(operator, &value)
            },
            Expr::Binary(left, operator, right) => {
                let left_value = self.interpret_expr(left, depth)?;
                let right_value = self.interpret_expr(right, depth)?;
                binary(operator, &left_value, right_value)
            },
            Expr::Var(name, distance) => self.read(name, distance),
            Expr::Assign(name, value, distance) => {
                let assigned = self.interpret_expr(value, depth)?;
                self.write(name, distance, assigned)
            },
            Expr::Logical(left, operator, right) => {
                let left_value = self.interpret_expr(left, depth)?;
                if operator.token_type == TokenType::Or {
                    if left_value.is_truthy() {
                        return Ok(left_value);
                    }
                } else {
                    if !left_value.is_truthy() {
                        return Ok(left_value);
                    }
                }
                self.interpret_expr(right, depth)
            },
            Expr::Call(_, _, _) => self.interpret_call(expr, depth),
            Expr::Get(target, name) => {
                let target_value = self.interpret_expr(target, depth)?;
                self.get_property(&target_value, name)
            },
            Expr::SetProperty(target, name, value) => {
                let target_value = self.interpret_expr(target, depth)?;
                match target_value {
                    LoxValue::Instance(instance) => {
                        let assigned = self.interpret_expr(value, depth)?;
                        if self.heap.set_field(instance, name.lexeme.as_str(), assigned.clone()) {
                            Ok(assigned)
                        } else {
                            Err(RuntimeError::InternalError(Fault::DanglingInstance))
                        }
                    },
                    _ => Err(RuntimeError::InvalidGetTarget(name.clone())),
                }
            },
            Expr::This(keyword, distance) => self.read(keyword, distance),
            Expr::Super(_, method, distance) => self.super_method(method, distance),
        }
    }

    /// Executes statements in a new environment, which becomes the current
    /// one while they run. The environment that was current before is
    /// current again afterwards, however the statements end.
    #[verifier::loop_isolation(false)]
    pub fn interpret_block(
        &mut self,
        statements: &Vec<Stmt>,
        environment: Environment,
        depth: usize,
    ) -> (r: Result<Option<LoxValue>, RuntimeError>)
        ensures
            final(self)@.steps <= old(self)@.steps,
            is_prefix(old(self)@.readings, final(self)@.readings),
            forall|clock: Seq<u64>|
                #![trigger is_prefix(final(self)@.readings, clock)]
                is_prefix(final(self)@.readings, clock) ==> exec_block(
                    old(self)@.with_clock(clock),
                    *statements,
                    environment@,
                    depth as nat,
                ) == (Executed {
                    state: final(self)@.with_clock(clock),
                    result: flow_result(r),
                }),
        decreases depth, 3nat, statements, statements@.len() + 1,
    {
        proof {
            lemma_prefixes_chain();
        }
        let previous = self.env;
        let handle = self.heap.add_environment(environment);
        self.env = handle;
        let ghost inner = self@;
        let mut i: usize = 0;
        while i < statements.len()
            invariant
                i <= statements@.len(),
                self@.steps <= old(self)@.steps,
                is_prefix(inner.readings, self@.readings),
                forall|clock: Seq<u64>|
                #![trigger is_prefix(self@.readings, clock)]
                is_prefix(self@.readings, clock) ==> exec_stmts(
                        inner.with_clock(clock),
                        *statements,
                        0,
                        depth as nat,
                    ) == exec_stmts(self@.with_clock(clock), *statements, i as nat, depth as nat),
            decreases statements@.len() - i,
        {
            match self.interpret_stmt(&statements[i], depth) {
                Ok(None) => {},
                other => {
                    self.env = previous;
                    return other;
                },
            }
            i += 1;
        }
        self.env = previous;
        Ok(None)
    }

    /// Builds the method table of a class: each declaration becomes a
    /// function object closed over `closure`.
    #[verifier::loop_isolation(false)]
    fn build_methods(&mut self, methods: &Vec<Stmt>, closure: usize) -> (r: Result<
        Table<LoxValue>,
        RuntimeError,
    >)
        ensures
            ({
                let built = methods_built(old(self)@.heap, methods@, 0, closure, Map::empty());
                &&& final(self)@ == old(self)@.with_heap(built.heap)
                &&& match r {
                    Ok(table) => built.result == Ok::<Map<Seq<char>, LoxValueView>, Stop>(table@),
                    Err(error) => built.result == Err::<Map<Seq<char>, LoxValueView>, Stop>(
                        Stop::Error(error),
                    ),
                }
            }),
    {
        let ghost target = methods_built(old(self)@.heap, methods@, 0, closure, Map::empty());
        let mut table: Table<LoxValue> = Table::new();
        let mut i: usize = 0;
        while i < methods.len()
            invariant
                i <= methods@.len(),
                self@ == old(self)@.with_heap(self@.heap),
                target == methods_built(self@.heap, methods@, i as nat, closure, table@),
            decreases methods@.len() - i,
        {
            match &methods[i] {
                Stmt::Func(declaration) => {
                    let is_initializer = same_text(declaration.name.lexeme.as_str(), "init");
                    let function = LoxFunc::new(share(declaration), closure, is_initializer);
                    let handle = self.heap.add_function(Callable::Function(function));
                    table.insert(declaration.name.lexeme.clone(), LoxValue::Func(handle));
                },
                _ => {
                    return Err(RuntimeError::InternalError(Fault::InvalidMethod));
                },
            }
            i += 1;
        }
        Ok(table)
    }

    /// Finishes a class declaration once the superclass is known.
    fn finish_class(
        &mut self,
        name: &Token,
        superclass: Option<usize>,
        closure: usize,
        methods: &Vec<Stmt>,
    ) -> (r: Result<Option<LoxValue>, RuntimeError>)
        ensures
            final(self)@ == declare_class(old(self)@, *name, superclass, closure, methods@).state,
            flow_result(r) == declare_class(
                old(self)@,
                *name,
                superclass,
                closure,
                methods@,
            ).result,
    {
        let table = self.build_methods(methods, closure)?;
        let class = LoxClass::new(name.lexeme.clone(), superclass, table);
        if self.env < self.heap.environments.len() {
            let handle = self.heap.add_class(class);
            self.define(&name.lexeme, LoxValue::Class(handle))?;
            Ok(None)
        } else {
            Err(RuntimeError::InternalError(Fault::DanglingEnvironment))
        }
    }

    /// Executes a `while` statement: before each iteration one step of the
    /// budget is spent and the condition evaluated; the loop ends when the
    /// condition is false, the body returns or fails, or the budget is
    /// spent.
    #[verifier::loop_isolation(false)]
    fn interpret_while(&mut self, stmt: &Stmt, depth: usize) -> (r: Result<
        Option<LoxValue>,
        RuntimeError,
    >)
        requires
            stmt is While,
        ensures
            final(self)@.steps <= old(self)@.steps,
            is_prefix(old(self)@.readings, final(self)@.readings),
            forall|clock: Seq<u64>|
                #![trigger is_prefix(final(self)@.readings, clock)]
                is_prefix(final(self)@.readings, clock) ==> run_while(
                    old(self)@.with_clock(clock),
                    *stmt,
                    depth as nat,
                ) == (Executed {
                    state: final(self)@.with_clock(clock),
                    result: flow_result(r),
                }),
        decreases depth, 3nat, stmt, 0nat,
    {
        proof {
            lemma_prefixes_chain();
        }
        match stmt {
            Stmt::While(condition, body) => {
                loop
                    invariant
                        self@.steps <= old(self)@.steps,
                        is_prefix(old(self)@.readings, self@.readings),
                        forall|clock: Seq<u64>|
                #![trigger is_prefix(self@.readings, clock)]
                is_prefix(self@.readings, clock) ==> run_while(
                                old(self)@.with_clock(clock),
                                *stmt,
                                depth as nat,
                            ) == run_while(self@.with_clock(clock), *stmt, depth as nat),
                    decreases self.steps,
                {
                    if self.steps == 0 {
                        return Err(RuntimeError::IterationLimit);
                    }
                    self.steps = self.steps - 1;
                    let value = self.interpret_expr(condition, depth)?;
                    if !value.is_truthy() {
                        return Ok(None);
                    }
                    match self.interpret_stmt(body, depth) {
                        Ok(None) => {},
                        other => {
                            return other;
                        },
                    }
                }
            },
            _ => Ok(None),
        }
    }

    /// Executes a class declaration.
    fn interpret_class(&mut self, stmt: &Stmt, depth: usize) -> (r: Result<
        Option<LoxValue>,
        RuntimeError,
    >)
        requires
            stmt is Class,
        ensures
            final(self)@.steps <= old(self)@.steps,
            is_prefix(old(self)@.readings, final(self)@.readings),
            forall|clock: Seq<u64>|
                #![trigger is_prefix(final(self)@.readings, clock)]
                is_prefix(final(self)@.readings, clock) ==> exec_stmt(
                    old(self)@.with_clock(clock),
                    *stmt,
                    depth as nat,
                ) == (Executed {
                    state: final(self)@.with_clock(clock),
                    result: flow_result(r),
                }),
        decreases depth, 3nat, stmt, 0nat,
    {
        proof {
            lemma_prefixes_chain();
        }
        match stmt {
            Stmt::Class(name, superclass, methods) => {
                match superclass {
                    None => {
                        let closure = self.env;
                        self.finish_class(name, None, closure, methods)
                    },
                    Some(superclass) => {
                        let parent = self.interpret_expr(superclass, depth)?;
                        match parent {
                            LoxValue::Class(handle) => {
                                let mut scope = Environment::from_parent(self.env);
                                scope.define(String::from_str("super"), LoxValue::Class(handle));
                                let closure = self.heap.add_environment(scope);
                                self.finish_class(name, Some(handle), closure, methods)
                            },
                            _ => Err(RuntimeError::InvalidSuperclass(name.clone())),
                        }
                    },
                }
            },
            _ => Ok(None),
        }
    }

    /// Executes a statement.
    fn interpret_stmt(&mut self, stmt: &Stmt, depth: usize) -> (r: Result<
        Option<LoxValue>,
        RuntimeError,
    >)
        ensures
            final(self)@.steps <= old(self)@.steps,
            is_prefix(old(self)@.readings, final(self)@.readings),
            forall|clock: Seq<u64>|
                #![trigger is_prefix(final(self)@.readings, clock)]
                is_prefix(final(self)@.readings, clock) ==> exec_stmt(
                    old(self)@.with_clock(clock),
                    *stmt,
                    depth as nat,
                ) == (Executed {
                    state: final(self)@.with_clock(clock),
                    result: flow_result(r),
                }),
        decreases depth, 3nat, stmt, crate::semantics::beyond_steps(),
    {
        proof {
            lemma_prefixes_chain();
        }
        match stmt {
            Stmt::Print(expr) => {
                let value = self.interpret_expr(expr, depth)?;
                let line = self.heap.display(&value);
                self.output.append(line.as_str());
                self.output.append("\n");
                Ok(None)
            },
            Stmt::Expr(expr) => {
                self.interpret_expr(expr, depth)?;
                Ok(None)
            },
            Stmt::Var(name, initializer) => {
                let value = self.interpret_expr(initializer, depth)?;
                self.define(&name.lexeme, value)?;
                Ok(None)
            },
            Stmt::Block(statements) => {
                let environment = Environment::from_parent(self.env);
                self.interpret_block(statements, environment, depth)
            },
            Stmt::If(condition, then_branch, else_branch) => {
                let value = self.interpret_expr(condition, depth)?;
                if value.is_truthy() {
                    self.interpret_stmt(then_branch, depth)
                } else {
                    match &**else_branch {
                        Some(otherwise) => self.interpret_stmt(otherwise, depth),
                        None => Ok(None),
                    }
                }
            },
            Stmt::While(_, _) => self.interpret_while(stmt, depth),
            Stmt::Func(declaration) => {
                if self.env < self.heap.environments.len() {
                    let function = LoxFunc::new(share(declaration), self.env, false);
                    let handle = self.heap.add_function(Callable::Function(function));
                    self.define(&declaration.name.lexeme, LoxValue::Func(handle))?;
                    Ok(None)
                } else {
                    Err(RuntimeError::InternalError(Fault::DanglingEnvironment))
                }
            },
            Stmt::Return(_, value) => {
                let returned = self.interpret_expr(value, depth)?;
                Ok(Some(returned))
            },
            Stmt::Class(_, _, _) => self.interpret_class(stmt, depth),
        }
    }
}

} // verus!
