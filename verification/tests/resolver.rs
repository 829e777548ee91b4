use rlox::errors::RuntimeError;
use rlox::expr::Expr;
use rlox::parser::Parser;
use rlox::resolver::Resolver;
use rlox::scanner::Scanner;
use rlox::stmt::Stmt;

fn parse(code: &str) -> Vec<Stmt> {
    let (tokens, errors) = Scanner::new(code.to_string()).scan_tokens();
    assert_eq!(errors.len(), 0);
    Parser::new(tokens).ast().unwrap()
}

fn resolve(code: &str) -> Result<Vec<Stmt>, RuntimeError> {
    let mut ast = parse(code);
    Resolver::new().resolve_ast(&mut ast).map(|()| ast)
}

fn failure(code: &str) -> String {
    resolve(code).unwrap_err().to_string()
}

/// The resolved distances of the variable reads, assignments, `this` and
/// `super` in the statements, in the order of the walk.
fn distances(statements: &[Stmt]) -> Vec<Option<usize>> {
    let mut found = Vec::new();
    for statement in statements {
        in_statement(statement, &mut found);
    }
    found
}

fn in_statement(statement: &Stmt, found: &mut Vec<Option<usize>>) {
    match statement {
        Stmt::Print(expr) | Stmt::Expr(expr) | Stmt::Var(_, expr) => in_expression(expr, found),
        Stmt::Block(statements) => {
            for statement in statements {
                in_statement(statement, found);
            }
        }
        Stmt::If(condition, then_branch, else_branch) => {
            in_expression(condition, found);
            in_statement(then_branch, found);
            if let Some(otherwise) = &**else_branch {
                in_statement(otherwise, found);
            }
        }
        Stmt::While(condition, body) => {
            in_expression(condition, found);
            in_statement(body, found);
        }
        Stmt::Func(function) => {
            for statement in &function.body {
                in_statement(statement, found);
            }
        }
        Stmt::Return(_, value) => in_expression(value, found),
        Stmt::Class(_, superclass, methods) => {
            if let Some(parent) = superclass {
                in_expression(parent, found);
            }
            for method in methods {
                in_statement(method, found);
            }
        }
    }
}

fn in_expression(expr: &Expr, found: &mut Vec<Option<usize>>) {
    match expr {
        Expr::Literal(_) => {}
        Expr::Grouping(inner) | Expr::Unary(_, inner) | Expr::Get(inner, _) => {
            in_expression(inner, found)
        }
        Expr::Binary(left, _, right)
        | Expr::Logical(left, _, right)
        | Expr::SetProperty(left, _, right) => {
            in_expression(left, found);
            in_expression(right, found);
        }
        Expr::Var(_, distance) | Expr::This(_, distance) | Expr::Super(_, _, distance) => {
            found.push(*distance)
        }
        Expr::Assign(_, value, distance) => {
            in_expression(value, found);
            found.push(*distance);
        }
        Expr::Call(callee, arguments, _) => {
            in_expression(callee, found);
            for argument in arguments {
                in_expression(argument, found);
            }
        }
    }
}

#[test]
fn globals_have_no_distance() {
    let resolved = resolve("var a = 1; print a; a = 2;").unwrap();

    assert_eq!(distances(&resolved), vec![None, None]);
}

#[test]
fn locals_count_the_scopes_between() {
    let resolved = resolve("{ var a = 1; print a; { print a; { a = 2; } } }").unwrap();

    assert_eq!(distances(&resolved), vec![Some(0), Some(1), Some(2)]);
}

#[test]
fn shadowing_resolves_to_the_nearest_declaration() {
    let resolved = resolve("{ var a = 1; { var a = 2; print a; } print a; }").unwrap();

    assert_eq!(distances(&resolved), vec![Some(0), Some(0)]);
}

#[test]
fn a_name_declared_later_in_the_block_is_not_seen() {
    let resolved = resolve("var a = 1; { fun show() { print a; } var a = 2; print a; }").unwrap();

    assert_eq!(distances(&resolved), vec![None, Some(0)]);
}

#[test]
fn parameters_and_body_share_a_scope() {
    let resolved = resolve("fun f(a) { var b = a; { print a; print b; } }").unwrap();

    assert_eq!(distances(&resolved), vec![Some(0), Some(1), Some(1)]);
}

#[test]
fn a_function_in_a_block_sees_itself_one_scope_out() {
    let resolved = resolve("{ fun f() { f(); } }").unwrap();

    assert_eq!(distances(&resolved), vec![Some(1)]);
}

#[test]
fn this_lies_one_scope_outside_the_method() {
    let resolved = resolve("class A { m() { this; { this; } } }").unwrap();

    assert_eq!(distances(&resolved), vec![Some(1), Some(2)]);
}

#[test]
fn super_lies_one_scope_outside_this() {
    let resolved = resolve("class A {} class B < A { m() { super.m; this; } }").unwrap();

    assert_eq!(distances(&resolved), vec![None, Some(2), Some(1)]);
}

#[test]
fn an_initializer_sees_the_variable_it_declares() {
    let resolved = resolve("{ var a = a; }").unwrap();

    assert_eq!(distances(&resolved), vec![Some(0)]);
}

#[test]
fn resolution_keeps_the_tree() {
    let code = "fun f(a, b) { if (a) return b; else { while (b) a = a - 1; } } class C { init(x) { this.x = x; } } print f(1, 2);";
    let before = parse(code);
    let after = resolve(code).unwrap();

    assert_eq!(after.len(), before.len());
    match (&before[0], &after[0]) {
        (Stmt::Func(old), Stmt::Func(new)) => {
            assert_eq!(old.name.lexeme, new.name.lexeme);
            assert_eq!(old.params.len(), new.params.len());
            assert_eq!(old.body.len(), new.body.len());
        }
        other => panic!("not functions: {:?}", other),
    }
    assert!(matches!(&after[1], Stmt::Class(name, None, methods) if name.lexeme == "C" && methods.len() == 1));
    match (&before[2], &after[2]) {
        (Stmt::Print(old), Stmt::Print(new)) => assert_eq!(old.to_string(), new.to_string()),
        other => panic!("not print statements: {:?}", other),
    }
}

#[test]
fn a_misuse_leaves_the_program_as_it_was() {
    let mut ast = parse("{ var a = 1; print a; } return 2;");
    let outcome = Resolver::new().resolve_ast(&mut ast);

    assert!(matches!(outcome, Err(RuntimeError::ReturnAtTopLevel(_))));
    assert_eq!(distances(&ast), vec![None]);
}

#[test]
fn return_outside_of_a_function() {
    assert_eq!(
        failure("print 1;\nreturn 1;"),
        "[line 2] UnexpectedTokenError: Cannot use `return` at the top level."
    );
    assert_eq!(
        failure("{ if (true) return; }"),
        "[line 1] UnexpectedTokenError: Cannot use `return` at the top level."
    );
}

#[test]
fn return_inside_an_initializer() {
    assert_eq!(
        failure("class A { init() { return; } }"),
        "[line 1] UnexpectedTokenError: Cannot use `return` on an initializer."
    );
    assert!(resolve("class A { other() { return 1; } }").is_ok());
    assert!(resolve("class A { init() { fun inner() { return 1; } } }").is_ok());
}

#[test]
fn this_outside_of_a_class() {
    assert_eq!(
        failure("this;"),
        "[line 1] UnexpectedTokenError: Cannot use `this` outside of a method."
    );
    assert!(resolve("class A { m() { fun inner() { return this; } } }").is_ok());
}

#[test]
fn super_outside_of_a_subclass() {
    assert_eq!(
        failure("super.m;"),
        "[line 1] UnexpectedTokenError: Cannot use `super` outside of a method."
    );
    assert_eq!(
        failure("class A { m() { super.m; } }"),
        "[line 1] UnexpectedTokenError: Cannot use `super` without a superclass."
    );
}

#[test]
fn the_first_misuse_is_reported() {
    assert_eq!(
        failure("fun f() { this; }\nreturn;"),
        "[line 1] UnexpectedTokenError: Cannot use `this` outside of a method."
    );
    assert!(matches!(
        resolve("f(1, this, super.x);"),
        Err(RuntimeError::ThisOutsideMethod(_))
    ));
}

#[test]
fn scopes_open_and_close() {
    let mut resolver = Resolver::new();

    assert_eq!(resolver.resolve_local("a".to_string()), None);
    resolver.declare("a".to_string());
    assert_eq!(resolver.resolve_local("a".to_string()), None);

    resolver.begin_scope();
    resolver.declare("a".to_string());
    assert_eq!(resolver.resolve_local("a".to_string()), Some(0));
    resolver.define("a".to_string());
    resolver.begin_scope();
    assert_eq!(resolver.resolve_local("a".to_string()), Some(1));
    resolver.define("b".to_string());
    assert_eq!(resolver.resolve_local("b".to_string()), Some(0));
    resolver.end_scope();
    assert_eq!(resolver.resolve_local("b".to_string()), None);
    assert_eq!(resolver.resolve_local("a".to_string()), Some(0));
    resolver.end_scope();
    assert_eq!(resolver.resolve_local("a".to_string()), None);
    resolver.end_scope();
    assert_eq!(resolver.scopes.len(), 0);
}
