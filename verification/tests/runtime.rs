use std::rc::Rc;

use rlox::callables::{Callable, ClockFunc, LoxFunc};
use rlox::environment::{Environment, EnvironmentError, CLOCK_HANDLE};
use rlox::errors::{Error, Fault, RuntimeError};
use rlox::expr::Expr;
use rlox::heap::Heap;
use rlox::interpreter::{Interpreter, DEFAULT_MAX_DEPTH};
use rlox::lox_class::LoxClass;
use rlox::lox_instance::LoxInstance;
use rlox::number::Number;
use rlox::stmt::{Function, Stmt};
use rlox::table::Table;
use rlox::token::{Literal, Token, TokenType};
use rlox::value::{CallableHandle, LoxValue, ValueError};
use rlox::{run, run_program, run_tokens};

fn number(x: f64) -> LoxValue {
    LoxValue::Number(Number::from_bits(x.to_bits()))
}

fn string(text: &str) -> LoxValue {
    LoxValue::String(text.to_string())
}

fn bits(value: &LoxValue) -> u64 {
    match value {
        LoxValue::Number(number) => number.bits,
        other => panic!("not a number: {:?}", other),
    }
}

fn token(token_type: TokenType, lexeme: &str) -> Token {
    Token::new(token_type, lexeme.to_string(), None, 1)
}

fn texts(errors: Vec<Error>) -> Vec<String> {
    errors.iter().map(|error| error.to_string()).collect()
}

fn failure(code: &str) -> String {
    let mut interpreter = Interpreter::new();
    let errors = texts(run(&mut interpreter, code.to_string()).unwrap_err());
    assert_eq!(errors.len(), 1);
    errors[0].clone()
}

#[test]
fn truthiness() {
    assert!(!LoxValue::Nil.is_truthy());
    assert!(!LoxValue::Bool(false).is_truthy());
    assert!(LoxValue::Bool(true).is_truthy());
    assert!(number(0.0).is_truthy());
    assert!(string("").is_truthy());
    assert!(LoxValue::Func(0).is_truthy());
    assert!(LoxValue::Class(0).is_truthy());
    assert!(LoxValue::Instance(0).is_truthy());
}

#[test]
fn negation() {
    assert_eq!(bits(&number(2.5).negate_number().unwrap()), (-2.5f64).to_bits());
    assert_eq!(string("a").negate_number().unwrap_err(), ValueError::TypeError);
    assert!(matches!(LoxValue::Nil.negate(), Ok(LoxValue::Bool(true))));
    assert!(matches!(number(0.0).negate(), Ok(LoxValue::Bool(false))));
}

#[test]
fn arithmetic_on_values() {
    assert_eq!(bits(&number(7.0).subtract(number(2.0)).unwrap()), 5.0f64.to_bits());
    assert_eq!(bits(&number(7.0).multiply(number(2.0)).unwrap()), 14.0f64.to_bits());
    assert_eq!(bits(&number(7.0).divide(number(2.0)).unwrap()), 3.5f64.to_bits());
    assert_eq!(bits(&number(7.0).plus(number(2.0)).unwrap()), 9.0f64.to_bits());
    assert!(matches!(string("ab").plus(string("cd")), Ok(LoxValue::String(text)) if text == "abcd"));
}

#[test]
fn arithmetic_rejects_other_types() {
    assert_eq!(number(1.0).subtract(string("a")).unwrap_err(), ValueError::TypeError);
    assert_eq!(string("a").multiply(number(1.0)).unwrap_err(), ValueError::TypeError);
    assert_eq!(number(1.0).plus(string("a")).unwrap_err(), ValueError::TypeError);
    assert_eq!(string("a").plus(number(1.0)).unwrap_err(), ValueError::TypeError);
    assert_eq!(LoxValue::Nil.plus(LoxValue::Nil).unwrap_err(), ValueError::TypeError);
    assert_eq!(number(1.0).divide(string("x")).unwrap_err(), ValueError::TypeError);
    assert_eq!(string("x").divide(number(0.0)).unwrap_err(), ValueError::TypeError);
    assert_eq!(number(1.0).is_less(LoxValue::Bool(true)).unwrap_err(), ValueError::TypeError);
}

#[test]
fn division_by_zero_is_its_own_error() {
    assert_eq!(number(1.0).divide(number(0.0)).unwrap_err(), ValueError::DivideByZero);
    assert_eq!(number(1.0).divide(number(-0.0)).unwrap_err(), ValueError::DivideByZero);
    assert_eq!(number(0.0).divide(number(0.0)).unwrap_err(), ValueError::DivideByZero);
    assert_eq!(ValueError::DivideByZero.to_string(), "DivideByZero");
    assert_eq!(ValueError::TypeError.to_string(), "TypeError");
    assert_eq!(ValueError::TypeError.description(), "TypeError");
}

#[test]
fn comparisons() {
    assert!(matches!(number(1.0).is_less(number(2.0)), Ok(LoxValue::Bool(true))));
    assert!(matches!(number(2.0).is_less(number(2.0)), Ok(LoxValue::Bool(false))));
    assert!(matches!(number(2.0).is_less_equal(number(2.0)), Ok(LoxValue::Bool(true))));
    assert!(matches!(number(3.0).is_greater(number(2.0)), Ok(LoxValue::Bool(true))));
    assert!(matches!(number(2.0).is_greater(number(2.0)), Ok(LoxValue::Bool(false))));
    assert!(matches!(number(2.0).is_greater_equal(number(2.0)), Ok(LoxValue::Bool(true))));
    assert!(matches!(number(-1.0).is_greater_equal(number(2.0)), Ok(LoxValue::Bool(false))));
    assert!(matches!(number(f64::NAN).is_less_equal(number(f64::NAN)), Ok(LoxValue::Bool(false))));
}

#[test]
fn equality_by_value_and_by_identity() {
    let equal = |a: &LoxValue, b: &LoxValue| matches!(a.is_equal(b), Ok(LoxValue::Bool(true)));
    let unequal = |a: &LoxValue, b: &LoxValue| matches!(a.is_not_equal(b), Ok(LoxValue::Bool(true)));

    assert!(equal(&number(1.0), &number(1.0)));
    assert!(equal(&number(0.0), &number(-0.0)));
    assert!(unequal(&number(f64::NAN), &number(f64::NAN)));
    assert!(equal(&string("a"), &string("a")));
    assert!(unequal(&string("a"), &string("b")));
    assert!(equal(&LoxValue::Nil, &LoxValue::Nil));
    assert!(equal(&LoxValue::Bool(true), &LoxValue::Bool(true)));
    assert!(unequal(&LoxValue::Bool(true), &LoxValue::Bool(false)));
    assert!(equal(&LoxValue::Instance(3), &LoxValue::Instance(3)));
    assert!(unequal(&LoxValue::Instance(3), &LoxValue::Instance(4)));
    assert!(equal(&LoxValue::Class(1), &LoxValue::Class(1)));
    assert!(unequal(&LoxValue::Class(1), &LoxValue::Class(2)));
    assert!(equal(&LoxValue::Func(1), &LoxValue::Func(1)));
    assert!(unequal(&LoxValue::Func(1), &LoxValue::Func(2)));
    assert!(unequal(&LoxValue::Func(1), &LoxValue::Class(1)));
    assert!(unequal(&LoxValue::Class(1), &LoxValue::Instance(1)));
    assert!(unequal(&number(1.0), &string("1")));
    assert!(unequal(&LoxValue::Nil, &LoxValue::Bool(false)));
}

#[test]
fn callables() {
    assert_eq!(LoxValue::Func(2).get_callable(), Some(CallableHandle::Func(2)));
    assert_eq!(LoxValue::Class(5).get_callable(), Some(CallableHandle::Class(5)));
    assert_eq!(LoxValue::Instance(5).get_callable(), None);
    assert_eq!(number(1.0).get_callable(), None);
    assert_eq!(ClockFunc::new().arity(), 0);
    assert_eq!(Callable::Native(ClockFunc::new()).arity(), 0);
}

#[test]
fn literal_values() {
    assert_eq!(bits(&Literal::Number(Number::from_bits(7)).value().unwrap()), 7);
    assert!(matches!(Literal::String("s".to_string()).value(), Some(LoxValue::String(text)) if text == "s"));
    assert!(matches!(Literal::Bool(true).value(), Some(LoxValue::Bool(true))));
    assert!(matches!(Literal::Nil.value(), Some(LoxValue::Nil)));
    assert_eq!(Literal::Nil.to_string(), "nil");
    assert_eq!(Literal::Bool(false).to_string(), "false");
}

#[test]
fn tables_bind_and_rebind() {
    let mut table: Table<LoxValue> = Table::new();

    assert!(!table.contains_key("a"));
    assert!(table.get("a").is_none());
    table.insert("a".to_string(), number(1.0));
    table.insert("b".to_string(), number(2.0));
    table.insert("a".to_string(), number(3.0));
    assert_eq!(table.entries.len(), 2);
    assert_eq!(table.find("a"), Some(0));
    assert_eq!(table.find("b"), Some(1));
    assert_eq!(table.find("c"), None);
    assert_eq!(bits(table.get("a").unwrap()), 3.0f64.to_bits());
    assert_eq!(bits(table.get("b").unwrap()), 2.0f64.to_bits());
}

#[test]
fn an_environment_defines_reads_and_assigns() {
    let mut env = Environment::new();
    let key = "a".to_string();

    assert!(matches!(env.get(&key), Err(EnvironmentError::UndefinedVariable(name)) if name == "a"));
    assert!(matches!(env.assign(&key, number(1.0)), Err(EnvironmentError::UndefinedVariable(_))));
    assert!(env.get(&key).is_err());
    env.define(key.clone(), number(1.0));
    assert_eq!(bits(&env.get(&key).unwrap()), 1.0f64.to_bits());
    assert!(env.assign(&key, number(2.0)).is_ok());
    assert_eq!(bits(&env.get(&key).unwrap()), 2.0f64.to_bits());
    env.define(key.clone(), string("again"));
    assert!(matches!(env.get(&key), Ok(LoxValue::String(text)) if text == "again"));
    assert_eq!(
        EnvironmentError::UndefinedVariable(key).to_string(),
        "Undefined variable a"
    );
}

#[test]
fn the_global_environment_binds_the_clock() {
    let env = Environment::global();

    assert!(env.enclosing.is_none());
    assert!(matches!(env.get(&"clock".to_string()), Ok(LoxValue::Func(CLOCK_HANDLE))));
    assert!(matches!(Environment::from_parent(4).enclosing, Some(4)));
}

#[test]
fn reads_and_assignments_walk_the_chain() {
    let key = "a".to_string();
    let mut outer = Environment::new();
    outer.define(key.clone(), string("outer"));
    let mut middle = Environment::from_parent(0);
    middle.define("b".to_string(), string("middle"));
    let mut inner = Environment::from_parent(1);
    inner.define(key.clone(), string("inner"));
    let mut store = vec![outer, middle, inner];

    assert_eq!(Environment::ancestor(&store, 2, 0), Some(2));
    assert_eq!(Environment::ancestor(&store, 2, 1), Some(1));
    assert_eq!(Environment::ancestor(&store, 2, 2), Some(0));
    assert_eq!(Environment::ancestor(&store, 2, 3), None);
    assert_eq!(Environment::ancestor(&store, 7, 0), None);

    assert!(matches!(Environment::get_at(&store, 2, &key, 0), Ok(LoxValue::String(text)) if text == "inner"));
    assert!(Environment::get_at(&store, 2, &key, 1).is_err());
    assert!(matches!(Environment::get_at(&store, 2, &key, 2), Ok(LoxValue::String(text)) if text == "outer"));
    assert!(Environment::get_at(&store, 2, &key, 3).is_err());

    assert!(Environment::assign_at(&mut store, 2, &key, string("changed"), 2).is_ok());
    assert!(matches!(Environment::get_at(&store, 0, &key, 0), Ok(LoxValue::String(text)) if text == "changed"));
    assert!(matches!(Environment::get_at(&store, 2, &key, 0), Ok(LoxValue::String(text)) if text == "inner"));
    assert!(Environment::assign_at(&mut store, 2, &key, string("nowhere"), 1).is_err());
    assert!(Environment::assign_at(&mut store, 2, &key, string("nowhere"), 5).is_err());
    assert!(Environment::get_at(&store, 1, &key, 0).is_err());
}

fn declaration(name: &str, params: &[&str]) -> Rc<Function> {
    Rc::new(Function {
        name: token(TokenType::Identifier, name),
        params: params.iter().map(|p| token(TokenType::Identifier, p)).collect(),
        body: Vec::new(),
    })
}

#[test]
fn a_fresh_heap_holds_the_globals_and_the_clock() {
    let heap = Heap::new();

    assert_eq!(heap.environments.len(), 1);
    assert_eq!(heap.functions.len(), 1);
    assert!(matches!(heap.functions[CLOCK_HANDLE], Callable::Native(_)));
    assert_eq!(heap.classes.len(), 0);
    assert_eq!(heap.instances.len(), 0);
}

#[test]
fn methods_are_found_up_the_chain_and_bound() {
    let mut heap = Heap::new();
    let own = heap.add_function(Callable::Function(LoxFunc::new(declaration("own", &["a"]), 0, false)));
    let inherited =
        heap.add_function(Callable::Function(LoxFunc::new(declaration("inherited", &[]), 0, false)));
    let init = heap.add_function(Callable::Function(LoxFunc::new(
        declaration("init", &["a", "b"]),
        0,
        true,
    )));
    let mut parent_methods: Table<LoxValue> = Table::new();
    parent_methods.insert("inherited".to_string(), LoxValue::Func(inherited));
    parent_methods.insert("init".to_string(), LoxValue::Func(init));
    let parent = heap.add_class(LoxClass::new("Parent".to_string(), None, parent_methods));
    let mut child_methods: Table<LoxValue> = Table::new();
    child_methods.insert("own".to_string(), LoxValue::Func(own));
    let child = heap.add_class(LoxClass::new("Child".to_string(), Some(parent), child_methods));

    assert_eq!(heap.classes[child].get_name(), "Child");
    assert_eq!(heap.lookup_method(child, "own").unwrap().arity(), 1);
    assert_eq!(heap.lookup_method(child, "inherited").unwrap().arity(), 0);
    assert!(heap.lookup_method(parent, "own").is_none());
    assert!(heap.lookup_method(child, "missing").is_none());
    assert!(heap.lookup_method(9, "own").is_none());
    assert_eq!(heap.class_arity(parent), 2);
    assert_eq!(heap.class_arity(child), 2);
    assert_eq!(heap.class_arity(9), 0);

    let created = heap.classes[child].instantiate(child).unwrap();
    assert_eq!(created.get_class_name(), "Child");
    let instance = heap.add_instance(created);
    let environments = heap.environments.len();
    let bound = LoxClass::find_method(&mut heap, child, "inherited", instance).unwrap();
    assert_eq!(heap.environments.len(), environments + 1);
    assert_eq!(bound.closure, environments);
    assert!(matches!(
        heap.environments[bound.closure].get(&"this".to_string()),
        Ok(LoxValue::Instance(handle)) if handle == instance
    ));
    assert_eq!(heap.environments[bound.closure].enclosing, Some(0));
    assert!(LoxClass::find_method(&mut heap, child, "missing", instance).is_none());
    assert_eq!(heap.environments.len(), environments + 1);
}

#[test]
fn properties_are_fields_first_then_methods() {
    let mut heap = Heap::new();
    let method = heap.add_function(Callable::Function(LoxFunc::new(declaration("m", &[]), 0, false)));
    let mut methods: Table<LoxValue> = Table::new();
    methods.insert("m".to_string(), LoxValue::Func(method));
    let class = heap.add_class(LoxClass::new("A".to_string(), None, methods));
    let instance = heap.add_instance(LoxInstance::new(class, "A".to_string()));
    let other = heap.add_instance(LoxInstance::new(class, "A".to_string()));

    let name = token(TokenType::Identifier, "p");
    assert!(matches!(
        LoxInstance::get(&mut heap, instance, &name),
        Err(RuntimeError::UndefinedProperty(found)) if found.lexeme == "p"
    ));
    assert!(heap.set_field(instance, "p", number(42.0)));
    assert_eq!(bits(&LoxInstance::get(&mut heap, instance, &name).unwrap()), 42.0f64.to_bits());
    assert!(LoxInstance::get(&mut heap, other, &name).is_err());
    assert!(!heap.set_field(17, "p", number(1.0)));
    assert!(matches!(
        LoxInstance::get(&mut heap, 17, &name),
        Err(RuntimeError::InternalError(Fault::DanglingInstance))
    ));

    let functions = heap.functions.len();
    let m = token(TokenType::Identifier, "m");
    let first = LoxInstance::get(&mut heap, instance, &m).unwrap();
    let second = LoxInstance::get(&mut heap, instance, &m).unwrap();
    assert!(matches!(first, LoxValue::Func(handle) if handle == functions));
    assert!(matches!(second, LoxValue::Func(handle) if handle == functions + 1));
    assert!(matches!(first.is_equal(&second), Ok(LoxValue::Bool(false))));

    heap.instances[instance].set("m", string("field"));
    assert!(matches!(LoxInstance::get(&mut heap, instance, &m), Ok(LoxValue::String(text)) if text == "field"));
}

#[test]
fn values_print_as_text() {
    let mut heap = Heap::new();
    let class = heap.add_class(LoxClass::new("Thing".to_string(), None, Table::new()));
    let instance = heap.add_instance(LoxInstance::new(class, "Thing".to_string()));

    assert_eq!(heap.display(&number(1.5)), "1.5");
    assert_eq!(heap.display(&string("text")), "text");
    assert_eq!(heap.display(&LoxValue::Bool(true)), "true");
    assert_eq!(heap.display(&LoxValue::Bool(false)), "false");
    assert_eq!(heap.display(&LoxValue::Nil), "nil");
    assert_eq!(heap.display(&LoxValue::Func(0)), "func");
    assert_eq!(heap.display(&LoxValue::Class(class)), "class <Thing>");
    assert_eq!(heap.display(&LoxValue::Instance(instance)), "instance of <Thing>");
    assert_eq!(heap.display(&LoxValue::Class(9)), "class <>");
    assert_eq!(heap.display(&LoxValue::Instance(9)), "instance of <>");
}

#[test]
fn the_clock_reads_the_time() {
    let mut interpreter = Interpreter::new();
    let before = std::time::SystemTime::now()
        .duration_since(std::time::UNIX_EPOCH)
        .unwrap()
        .as_secs();
    let reading = ClockFunc::new().call(&mut interpreter, Vec::new()).unwrap();
    let seconds = f64::from_bits(bits(&reading));

    assert!(seconds >= before as f64);
    assert!(seconds <= (before + 60) as f64);
    assert_eq!(interpreter.readings.len(), 1);
    assert_eq!(interpreter.readings[0] as f64, seconds);
    assert_eq!(bits(&ClockFunc::reading(1_700_000_000)), 1.7e9f64.to_bits());
    assert_eq!(ClockFunc::seconds_of(Some(1_700_000_000)), 1_700_000_000);
    assert_eq!(ClockFunc::seconds_of(None), 0);
}

#[test]
fn every_reading_of_the_clock_is_noted() {
    let mut interpreter = Interpreter::new();

    assert!(run(&mut interpreter, "var a = clock(); print clock() >= a;".to_string()).is_ok());
    assert_eq!(interpreter.take_output(), "true\n");
    assert_eq!(interpreter.readings.len(), 2);
    assert!(interpreter.readings[0] <= interpreter.readings[1]);
    assert!(run(&mut interpreter, "print 1;".to_string()).is_ok());
    assert_eq!(interpreter.readings.len(), 2);
}

#[test]
fn an_interpreter_keeps_its_state_between_runs() {
    let mut interpreter = Interpreter::new();

    assert!(run(&mut interpreter, "var a = 1; fun next() { a = a + 1; return a; }".to_string()).is_ok());
    assert!(run(&mut interpreter, "print next();".to_string()).is_ok());
    assert_eq!(interpreter.output(), "2\n");
    assert!(run(&mut interpreter, "print missing;".to_string()).is_err());
    assert!(run(&mut interpreter, "print next();".to_string()).is_ok());
    assert_eq!(interpreter.take_output(), "2\n3\n");
    assert_eq!(interpreter.output(), "");
    assert_eq!(interpreter.env, interpreter.globals);
}

#[test]
fn an_error_inside_nested_scopes_restores_the_global_scope() {
    let mut interpreter = Interpreter::new();

    assert!(run(
        &mut interpreter,
        "fun f() { { var local = 1; print missing; } } f();".to_string()
    )
    .is_err());
    assert_eq!(interpreter.env, interpreter.globals);
    assert!(run(&mut interpreter, "var a = 1; print a;".to_string()).is_ok());
    assert_eq!(interpreter.take_output(), "1\n");
}

#[test]
fn output_before_an_error_stays_in_the_interpreter() {
    let mut interpreter = Interpreter::new();

    let errors = run(&mut interpreter, "print 1; print 1 + nil; print 2;".to_string()).unwrap_err();
    assert_eq!(
        texts(errors),
        vec!["[line 1] Both sides of an addition must be either strings or numbers"]
    );
    assert_eq!(interpreter.output(), "1\n");
}

#[test]
fn lexical_errors_come_before_everything_else() {
    let mut interpreter = Interpreter::new();

    let errors = run(&mut interpreter, "print 1; @ print ; #".to_string()).unwrap_err();
    assert_eq!(
        texts(errors),
        vec![
            "[line 1] ScannerError: Invalid character: @",
            "[line 1] ScannerError: Invalid character: #"
        ]
    );
    assert_eq!(interpreter.output(), "");
}

#[test]
fn the_stages_can_be_run_one_by_one() {
    let mut interpreter = Interpreter::new();
    let tokens = vec![
        token(TokenType::Print, "print"),
        Token::new(
            TokenType::String,
            "\"hi\"".to_string(),
            Some(Literal::String("hi".to_string())),
            1,
        ),
        token(TokenType::Semicolon, ";"),
        token(TokenType::Eof, ""),
    ];
    assert!(run_tokens(&mut interpreter, tokens).is_ok());

    let program = vec![Stmt::Print(Expr::Literal(Literal::Bool(true)))];
    assert!(run_program(&mut interpreter, program).is_ok());
    assert_eq!(interpreter.take_output(), "hi\ntrue\n");

    let misuse = vec![Stmt::Expr(Expr::This(token(TokenType::This, "this"), None))];
    assert_eq!(
        texts(run_program(&mut interpreter, misuse).unwrap_err()),
        vec!["[line 1] UnexpectedTokenError: Cannot use `this` outside of a method."]
    );
}

#[test]
fn operand_type_errors() {
    assert_eq!(failure("print -\"a\";"), "[line 1] Cannot negate a non-numerical value");
    assert_eq!(failure("print 1 - \"a\";"), "[line 1] Both sides of a subtraction must be numbers");
    assert_eq!(failure("print nil * 2;"), "[line 1] Both sides of a multiplication must be numbers");
    assert_eq!(failure("print true / 2;"), "[line 1] Both sides of a division must be numbers");
    assert_eq!(
        failure("print \"a\" + 1;"),
        "[line 1] Both sides of an addition must be either strings or numbers"
    );
    assert_eq!(
        failure("print 1 > \"a\";"),
        "[line 1] Both sides of a greater than comparison must be numbers"
    );
    assert_eq!(
        failure("print 1 >= \"a\";"),
        "[line 1] Both sides of a greater or equal comparison must be numbers"
    );
    assert_eq!(
        failure("print \"b\" < \"a\";"),
        "[line 1] Both sides of a less than comparison must be numbers"
    );
    assert_eq!(
        failure("print nil <= 1;"),
        "[line 1] Both sides of a less or equal comparison must be numbers"
    );
}

#[test]
fn equality_never_fails() {
    let mut interpreter = Interpreter::new();
    assert!(run(
        &mut interpreter,
        "print 1 == \"1\"; print nil != false; print \"a\" == \"a\"; print clock == clock; print !nil; print !0;"
            .to_string()
    )
    .is_ok());
    assert_eq!(interpreter.take_output(), "false\ntrue\ntrue\ntrue\ntrue\nfalse\n");
}

#[test]
fn logical_operators_yield_an_operand() {
    let mut interpreter = Interpreter::new();
    assert!(run(
        &mut interpreter,
        "print nil or \"b\"; print 1 or 2; print nil and 2; print 1 and 2; \
         var touched = false; fun touch() { touched = true; return true; } \
         print false and touch(); print touched; print true or touch(); print touched;"
            .to_string()
    )
    .is_ok());
    assert_eq!(interpreter.take_output(), "b\n1\nnil\n2\nfalse\nfalse\ntrue\nfalse\n");
}

#[test]
fn control_flow() {
    let mut interpreter = Interpreter::new();
    assert!(run(
        &mut interpreter,
        "if (1 < 2) print \"then\"; else print \"else\"; \
         if (nil) print \"then\"; else print \"else\"; \
         if (false) print \"never\"; \
         var i = 0; while (i < 3) { print i; i = i + 1; } \
         for (var j = 10; j > 8; j = j - 1) print j; \
         var k = 0; for (; k < 2;) k = k + 1; print k;"
            .to_string()
    )
    .is_ok());
    assert_eq!(interpreter.take_output(), "then\nelse\n0\n1\n2\n10\n9\n2\n");
}

#[test]
fn limits_end_runaway_programs() {
    let mut interpreter = Interpreter::new();
    interpreter.set_limits(DEFAULT_MAX_DEPTH, 10);
    assert_eq!(
        texts(run(&mut interpreter, "var i = 0; while (true) i = i + 1;".to_string()).unwrap_err()),
        vec!["Iteration limit reached."]
    );
    assert_eq!(interpreter.steps, 0);
    assert!(run(&mut interpreter, "print i;".to_string()).is_ok());
    assert_eq!(interpreter.take_output(), "10\n");

    interpreter.set_limits(3, 100);
    assert!(run(
        &mut interpreter,
        "fun down(n) { if (n > 0) return down(n - 1); return \"bottom\"; } print down(2);".to_string()
    )
    .is_ok());
    assert_eq!(
        texts(run(&mut interpreter, "print down(3);".to_string()).unwrap_err()),
        vec!["[line 1] Stack overflow."]
    );
    assert_eq!(interpreter.take_output(), "bottom\n");
}

#[test]
fn faults_of_handmade_trees_are_reported() {
    let mut interpreter = Interpreter::new();
    let one = || Box::new(Expr::Literal(Literal::Number(Number::from_bits(1.0f64.to_bits()))));

    let unary = vec![Stmt::Expr(Expr::Unary(token(TokenType::Plus, "+"), one()))];
    assert!(matches!(
        interpreter.interpret(unary),
        Some(RuntimeError::InternalError(Fault::InvalidUnaryOperator))
    ));
    let binary = vec![Stmt::Expr(Expr::Binary(one(), token(TokenType::Bang, "!"), one()))];
    let fault = interpreter.interpret(binary).unwrap();
    assert_eq!(fault.to_string(), "Internal interpreter error: Invalid binary operator");
    assert_eq!(fault.description(), "InternalError");
    let unresolved = vec![Stmt::Expr(Expr::Super(
        token(TokenType::Super, "super"),
        token(TokenType::Identifier, "m"),
        None,
    ))];
    assert!(matches!(
        interpreter.interpret(unresolved),
        Some(RuntimeError::InternalError(Fault::UnresolvedSuper))
    ));
    let misplaced = vec![Stmt::Class(
        token(TokenType::Identifier, "A"),
        None,
        vec![Stmt::Print(*one())],
    )];
    assert!(matches!(
        interpreter.interpret(misplaced),
        Some(RuntimeError::InternalError(Fault::InvalidMethod))
    ));
    let far = vec![Stmt::Print(Expr::Var(token(TokenType::Identifier, "a"), Some(3)))];
    assert!(matches!(interpreter.interpret(far), Some(RuntimeError::UndefinedVariable(_))));
}

#[test]
fn blocks_run_in_their_own_environment() {
    let mut interpreter = Interpreter::new();
    let mut environment = Environment::from_parent(interpreter.globals);
    environment.define("local".to_string(), string("inside"));
    let body = vec![
        Stmt::Print(Expr::Var(token(TokenType::Identifier, "local"), Some(0))),
        Stmt::Return(
            token(TokenType::Return, "return"),
            Box::new(Expr::Var(token(TokenType::Identifier, "local"), Some(0))),
        ),
        Stmt::Print(Expr::Literal(Literal::Nil)),
    ];

    let returned = interpreter.interpret_block(&body, environment, 1).unwrap();

    assert!(matches!(returned, Some(LoxValue::String(text)) if text == "inside"));
    assert_eq!(interpreter.output(), "inside\n");
    assert_eq!(interpreter.env, interpreter.globals);
    assert_eq!(interpreter.heap.environments.len(), 2);
}

#[test]
fn calling_functions_and_classes_directly() {
    let mut interpreter = Interpreter::new();
    assert!(run(
        &mut interpreter,
        "fun twice(x) { return x + x; } class Point { init(x) { this.x = x; } }".to_string()
    )
    .is_ok());
    let paren = token(TokenType::RightParen, ")");

    let twice = match interpreter.heap.environments[0].get(&"twice".to_string()).unwrap() {
        LoxValue::Func(handle) => match &interpreter.heap.functions[handle] {
            Callable::Function(function) => function.clone(),
            other => panic!("not a function: {:?}", other),
        },
        other => panic!("not a function value: {:?}", other),
    };
    assert_eq!(twice.arity(), 1);
    let doubled = twice.call(&mut interpreter, vec![number(4.0)], &paren, 8).unwrap();
    assert_eq!(bits(&doubled), 8.0f64.to_bits());
    assert!(matches!(
        twice.call(&mut interpreter, vec![], &paren, 8),
        Err(RuntimeError::WrongArity(_, 0, 1))
    ));
    assert!(matches!(
        twice.call(&mut interpreter, vec![number(4.0)], &paren, 0),
        Err(RuntimeError::StackOverflow(_))
    ));

    let point = match interpreter.heap.environments[0].get(&"Point".to_string()).unwrap() {
        LoxValue::Class(handle) => handle,
        other => panic!("not a class: {:?}", other),
    };
    let made = LoxClass::call(&mut interpreter, point, vec![number(3.0)], &paren, 8).unwrap();
    match made {
        LoxValue::Instance(handle) => {
            assert_eq!(interpreter.heap.instances[handle].class, point);
            assert_eq!(
                bits(interpreter.heap.instances[handle].state.get("x").unwrap()),
                3.0f64.to_bits()
            );
        }
        other => panic!("not an instance: {:?}", other),
    }
    assert!(matches!(
        LoxClass::call(&mut interpreter, 99, vec![], &paren, 8),
        Err(RuntimeError::InternalError(Fault::DanglingClass))
    ));
}

#[test]
fn runtime_errors_name_their_kind() {
    let mut interpreter = Interpreter::new();
    let errors = run(&mut interpreter, "var f = 1; f();".to_string()).unwrap_err();

    assert_eq!(errors[0].description(), "CallOnNonCallable");
    assert!(matches!(&errors[0], Error::Runtime(RuntimeError::CallOnNonCallable(paren)) if paren.lexeme == ")"));
}

#[test]
fn dangling_handles_are_faults() {
    let paren = token(TokenType::RightParen, ")");
    let name = || token(TokenType::Identifier, "ghost");

    let mut interpreter = Interpreter::new();
    interpreter.heap.environments[0].define("ghost".to_string(), LoxValue::Func(99));
    let call = vec![Stmt::Expr(Expr::Call(
        Box::new(Expr::Var(name(), None)),
        Vec::new(),
        paren.clone(),
    ))];
    assert!(matches!(
        interpreter.interpret(call),
        Some(RuntimeError::InternalError(Fault::DanglingFunction))
    ));

    interpreter.heap.environments[0].define("ghost".to_string(), LoxValue::Instance(99));
    let write = vec![Stmt::Expr(Expr::SetProperty(
        Box::new(Expr::Var(name(), None)),
        token(TokenType::Identifier, "p"),
        Box::new(Expr::Literal(Literal::Nil)),
    ))];
    assert!(matches!(
        interpreter.interpret(write),
        Some(RuntimeError::InternalError(Fault::DanglingInstance))
    ));

    interpreter.env = 99;
    let declare = vec![Stmt::Var(name(), Expr::Literal(Literal::Nil))];
    let fault = interpreter.interpret(declare).unwrap();
    assert_eq!(fault.to_string(), "Internal interpreter error: Couldn't find the environment");
    let function = vec![Stmt::Func(declaration("f", &[]).clone())];
    assert!(matches!(
        interpreter.interpret(function),
        Some(RuntimeError::InternalError(Fault::DanglingEnvironment))
    ));
}

#[test]
fn super_without_its_scopes_is_a_fault() {
    let mut interpreter = Interpreter::new();
    let super_at = |distance: usize| {
        vec![Stmt::Expr(Expr::Super(
            token(TokenType::Super, "super"),
            token(TokenType::Identifier, "m"),
            Some(distance),
        ))]
    };

    assert!(matches!(
        interpreter.interpret(super_at(0)),
        Some(RuntimeError::InternalError(Fault::MissingThis))
    ));
    assert!(matches!(
        interpreter.interpret(super_at(1)),
        Some(RuntimeError::InternalError(Fault::MissingSuper))
    ));
    interpreter.heap.environments[0].define("super".to_string(), LoxValue::Class(0));
    let mut inner = Environment::from_parent(0);
    inner.define("this".to_string(), LoxValue::Nil);
    let fault = interpreter.interpret_block(&super_at(1), inner, 1).unwrap_err();
    assert_eq!(
        fault.to_string(),
        "Internal interpreter error: Couldn't find reference to `this`"
    );
    assert_eq!(Fault::InvalidLiteral.description(), "Invalid literal - no value");
    assert_eq!(Fault::InvalidCall.description(), "Invalid call");
}
