use rlox::errors::ParsingError;
use rlox::expr::Expr;
use rlox::parser::{Parser, TokenParser};
use rlox::scanner::Scanner;
use rlox::stmt::Stmt;
use rlox::token::{Literal, Token, TokenType};

fn parse(code: &str) -> Result<Vec<Stmt>, Vec<ParsingError>> {
    let (tokens, errors) = Scanner::new(code.to_string()).scan_tokens();
    assert_eq!(errors.len(), 0);
    Parser::new(tokens).ast()
}

fn expression(code: &str) -> String {
    let statements = parse(&format!("{};", code)).unwrap();
    assert_eq!(statements.len(), 1);
    match &statements[0] {
        Stmt::Expr(expr) => expr.to_string(),
        other => panic!("not an expression statement: {:?}", other),
    }
}

fn messages(code: &str) -> Vec<String> {
    match parse(code) {
        Ok(_) => Vec::new(),
        Err(errors) => errors.iter().map(|error| error.to_string()).collect(),
    }
}

#[test]
fn precedence_climbs_from_or_to_unary() {
    assert_eq!(expression("1 + 2 * 3"), "(+ 1 (* 2 3))");
    assert_eq!(expression("1 * 2 + 3"), "(+ (* 1 2) 3)");
    assert_eq!(expression("1 < 2 == 3 > 4"), "(== (< 1 2) (> 3 4))");
    assert_eq!(expression("a or b and c"), "(or (var a) (and (var b) (var c)))");
    assert_eq!(expression("!a == -b"), "(== (! (var a)) (- (var b)))");
    assert_eq!(expression("-!-1"), "(- (! (- 1)))");
}

#[test]
fn binary_operators_associate_to_the_left() {
    assert_eq!(expression("1 - 2 - 3"), "(- (- 1 2) 3)");
    assert_eq!(expression("8 / 4 / 2"), "(/ (/ 8 4) 2)");
    assert_eq!(expression("a and b and c"), "(and (and (var a) (var b)) (var c))");
}

#[test]
fn assignment_associates_to_the_right() {
    assert_eq!(expression("a = b = 1"), "(assign a (assign b 1))");
    assert_eq!(expression("a.b.c = 1"), "(set (get (var a) b) c 1)");
}

#[test]
fn grouping_and_literals() {
    assert_eq!(expression("(1 + 2) * 3"), "(* (group (+ 1 2)) 3)");
    assert_eq!(expression("\"text\""), "text");
    assert_eq!(expression("true"), "true");
    assert_eq!(expression("false"), "false");
    assert_eq!(expression("nil"), "nil");
    assert_eq!(expression("12.5"), "12.5");
}

#[test]
fn calls_and_property_accesses_chain() {
    assert_eq!(expression("f()"), "(call (var f) [])");
    assert_eq!(expression("f(1, a)(2)"), "(call (call (var f) [1, (var a)]) [2])");
    assert_eq!(expression("a.b(1).c"), "(get (call (get (var a) b) [1]) c)");
    assert_eq!(expression("this.x"), "(get this x)");
    assert_eq!(expression("super.m()"), "(call (super m) [])");
}

#[test]
fn distances_are_unresolved_after_parsing() {
    let statements = parse("a; a = 1; this; super.m;").unwrap();
    assert!(matches!(&statements[0], Stmt::Expr(Expr::Var(_, None))));
    assert!(matches!(&statements[1], Stmt::Expr(Expr::Assign(_, _, None))));
    assert!(matches!(&statements[2], Stmt::Expr(Expr::This(_, None))));
    assert!(matches!(&statements[3], Stmt::Expr(Expr::Super(_, _, None))));
}

#[test]
fn statements_of_every_kind() {
    let statements = parse(
        "print 1; var a; var b = 2; { a; } if (a) b; else a; while (a) b; \
         fun f(x, y) { return x; } class A < B { m() {} } return;",
    )
    .unwrap();

    assert_eq!(statements.len(), 9);
    assert!(matches!(&statements[0], Stmt::Print(_)));
    assert!(matches!(&statements[1], Stmt::Var(_, Expr::Literal(Literal::Nil))));
    assert!(matches!(&statements[2], Stmt::Var(name, _) if name.lexeme == "b"));
    assert!(matches!(&statements[3], Stmt::Block(inner) if inner.len() == 1));
    assert!(matches!(&statements[4], Stmt::If(_, _, otherwise) if otherwise.is_some()));
    assert!(matches!(&statements[5], Stmt::While(_, _)));
    match &statements[6] {
        Stmt::Func(function) => {
            assert_eq!(function.name.lexeme, "f");
            assert_eq!(function.params.len(), 2);
            assert_eq!(function.params[1].lexeme, "y");
            assert!(matches!(&function.body[0], Stmt::Return(keyword, _) if keyword.lexeme == "return"));
        }
        other => panic!("not a function: {:?}", other),
    }
    match &statements[7] {
        Stmt::Class(name, Some(Expr::Var(parent, None)), methods) => {
            assert_eq!(name.lexeme, "A");
            assert_eq!(parent.lexeme, "B");
            assert_eq!(methods.len(), 1);
            assert!(matches!(&methods[0], Stmt::Func(method) if method.name.lexeme == "m"));
        }
        other => panic!("not a class with a superclass: {:?}", other),
    }
    assert!(matches!(&statements[8], Stmt::Return(_, value) if matches!(**value, Expr::Literal(Literal::Nil))));
}

#[test]
fn for_is_rewritten_as_while() {
    let statements = parse("for (var i = 0; i < 3; i = i + 1) print i;").unwrap();

    match &statements[0] {
        Stmt::Block(outer) => {
            assert_eq!(outer.len(), 2);
            assert!(matches!(&outer[0], Stmt::Var(name, _) if name.lexeme == "i"));
            match &outer[1] {
                Stmt::While(condition, body) => {
                    assert_eq!(condition.to_string(), "(< (var i) 3)");
                    match &**body {
                        Stmt::Block(inner) => {
                            assert_eq!(inner.len(), 2);
                            assert!(matches!(&inner[0], Stmt::Print(_)));
                            assert!(matches!(&inner[1], Stmt::Expr(Expr::Assign(_, _, _))));
                        }
                        other => panic!("not a block: {:?}", other),
                    }
                }
                other => panic!("not a loop: {:?}", other),
            }
        }
        other => panic!("not a block: {:?}", other),
    }
}

#[test]
fn for_without_clauses_loops_on_true() {
    let statements = parse("for (;;) print 1;").unwrap();

    match &statements[0] {
        Stmt::While(Expr::Literal(Literal::Bool(true)), body) => {
            assert!(matches!(&**body, Stmt::Print(_)));
        }
        other => panic!("not a bare loop: {:?}", other),
    }
}

#[test]
fn every_syntax_error_of_a_program_is_reported() {
    let errors = messages("var = 1;\nprint 2;\nprint ;\nvar ok = 3;\n(4;");

    assert_eq!(
        errors,
        vec![
            "[line 1] UnexpectedTokenError: Expected variable name =",
            "[line 3] UnexpectedTokenError: Unexpected token ;",
            "[line 5] UnexpectedTokenError: Expected ')' after expression. ;",
        ]
    );
}

#[test]
fn recovery_resumes_at_the_next_statement() {
    let errors = messages("print 1 2 3 print 4; print +; print 5;");

    assert_eq!(
        errors,
        vec![
            "[line 1] UnexpectedTokenError: Expect ';' after expression. 2",
            "[line 1] UnexpectedTokenError: Unexpected token +",
        ]
    );
}

#[test]
fn invalid_assignment_target() {
    assert_eq!(messages("1 = 2;"), vec!["[line 1] Invalid assignment target"]);
    assert_eq!(messages("a + b = 2;"), vec!["[line 1] Invalid assignment target"]);
    assert_eq!(messages("(a) = 2;"), vec!["[line 1] Invalid assignment target"]);
}

#[test]
fn unexpected_end_of_input() {
    assert_eq!(messages("print"), vec!["Unexpected end of input"]);
    assert_eq!(messages("1 +"), vec!["Unexpected end of input"]);
}

#[test]
fn at_most_eight_parameters() {
    assert!(parse("fun f(a, b, c, d, e, f, g, h) {}").is_ok());
    assert_eq!(
        messages("fun f(a, b, c, d, e, f, g, h, i) {}")[0],
        "Cannot have more than 8 parameters."
    );
}

#[test]
fn at_most_eight_arguments() {
    assert!(parse("f(1, 2, 3, 4, 5, 6, 7, 8);").is_ok());
    assert_eq!(
        messages("f(1, 2, 3, 4, 5, 6, 7, 8, 9);")[0],
        "Cannot have more than 8 arguments."
    );
}

#[test]
fn messages_name_what_is_declared() {
    assert_eq!(messages("fun () {}")[0], "[line 1] UnexpectedTokenError: Expected function name. (");
    assert_eq!(
        messages("fun f {}")[0],
        "[line 1] UnexpectedTokenError: Expected `(` after function name. {"
    );
    assert_eq!(
        messages("class A { m() 1 }")[0],
        "[line 1] UnexpectedTokenError: Expected `{` before method body. 1"
    );
    assert_eq!(messages("class A { 1 }")[0], "[line 1] UnexpectedTokenError: Expected method name. 1");
    assert_eq!(messages("class")[0], "[line 1] UnexpectedTokenError: Expected class name ");
}

#[test]
fn delimiters_are_required() {
    assert_eq!(messages("if a) b;")[0], "[line 1] UnexpectedTokenError: Expected `(` after `if` a");
    assert_eq!(messages("if (a b;")[0], "[line 1] UnexpectedTokenError: Expected `)` after condition b");
    assert_eq!(messages("while a) b;")[0], "[line 1] UnexpectedTokenError: Expected `(` after `while` a");
    assert_eq!(messages("for a;;) b;")[0], "[line 1] UnexpectedTokenError: Expected `(` after `for` a");
    assert_eq!(
        messages("for (;a b;) c;")[0],
        "[line 1] UnexpectedTokenError: Expect `;` after loop condition. b"
    );
    assert_eq!(
        messages("for (;;a b) c;")[0],
        "[line 1] UnexpectedTokenError: Expect `)` after for clause. b"
    );
    assert_eq!(messages("{ a;")[0], "[line 1] UnexpectedTokenError: Expected `}` after block ");
    assert_eq!(messages("f(a;")[0], "[line 1] UnexpectedTokenError: Expect `)` after arguments. ;");
    assert_eq!(
        messages("f(a b) {}")[0],
        "[line 1] UnexpectedTokenError: Expect `)` after arguments. b"
    );
    assert_eq!(
        messages("fun f(a b) {}")[0],
        "[line 1] UnexpectedTokenError: Expect `)` after parameters. b"
    );
    assert_eq!(
        messages("fun f(1) {}")[0],
        "[line 1] UnexpectedTokenError: Expected parameter name 1"
    );
    assert_eq!(
        messages("a.1;")[0],
        "[line 1] UnexpectedTokenError: Expected property name after `.`. 1"
    );
    assert_eq!(
        messages("super.1;")[0],
        "[line 1] UnexpectedTokenError: Expect superclass method name. 1"
    );
    assert_eq!(
        messages("var a = 1 print a;")[0],
        "[line 1] UnexpectedTokenError: Expect ';' after variable declaration. print"
    );
    assert_eq!(
        messages("return 1 }")[0],
        "[line 1] UnexpectedTokenError: Expect `;` after return value. }"
    );
}

#[test]
fn a_literal_token_without_a_value_is_an_internal_error() {
    let tokens = vec![
        Token::new(TokenType::Number, "1".to_string(), None, 1),
        Token::new(TokenType::Semicolon, ";".to_string(), None, 1),
        Token::new(TokenType::Eof, "".to_string(), None, 1),
    ];
    let errors = Parser::new(tokens).ast().unwrap_err();

    assert_eq!(errors.len(), 1);
    assert_eq!(errors[0].to_string(), "Internal error: Missing literal value");
    assert_eq!(errors[0].description(), "InternalError");
}

#[test]
fn the_token_parser_parses_from_the_first_token() {
    let (tokens, _) = Scanner::new("print 1; print 2;".to_string()).scan_tokens();
    let mut parser = TokenParser::new(tokens);
    let statements = parser.parse().unwrap();

    assert_eq!(statements.len(), 2);
    assert_eq!(parser.current, 6);
}

#[test]
fn nothing_but_the_end_token_is_an_empty_program() {
    assert_eq!(parse("").unwrap().len(), 0);
    assert_eq!(parse("// nothing here\n").unwrap().len(), 0);
}
