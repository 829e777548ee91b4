//! The grammar of the language, as mathematical functions from a token
//! list and a position to a syntax tree (or an error) and the position
//! where parsing stopped. The parser is verified to compute exactly these
//! functions.
//!
//! Precedence, lowest first: assignment, `or`, `and`, equality,
//! comparison, addition, multiplication, unary, call, primary.

use vstd::prelude::*;
use crate::errors::ParsingErrorView;
use crate::expr::ExprView;
use crate::stmt::{FunctionView, StmtView};
use crate::token::{Literal, Token, TokenType};

verus! {

/// The outcome of parsing one construct: the tree or the error, and the
/// position of the first token not consumed.
pub struct Parsed<T> {
    pub result: Result<T, ParsingErrorView>,
    pub next: int,
}

/// The most parameters that a function may declare, and the most arguments
/// that a call may pass.
pub open spec fn arity_limit() -> nat {
    8
}

/// A successful outcome.
pub open spec fn ok<T>(value: T, next: int) -> Parsed<T> {
    Parsed { result: Ok(value), next }
}

/// A failed outcome.
pub open spec fn fail<T>(error: ParsingErrorView, next: int) -> Parsed<T> {
    Parsed { result: Err(error), next }
}

/// Whether the token list can be parsed: it ends with the end token.
pub open spec fn terminated(tokens: Seq<Token>) -> bool {
    tokens.len() > 0 && tokens.last().token_type == TokenType::Eof
}

/// Whether parsing is over at `pos`: the token there is the end token.
pub open spec fn over(tokens: Seq<Token>, pos: int) -> bool {
    pos < 0 || pos >= tokens.len() || tokens[pos].token_type == TokenType::Eof
}

/// Whether the token at `pos` has the given type.
pub open spec fn check(tokens: Seq<Token>, pos: int, token_type: TokenType) -> bool {
    !over(tokens, pos) && tokens[pos].token_type == token_type
}

/// A position reported by a sub-parser, kept at or after the position
/// where it started. Parsing never moves backwards, so this changes
/// nothing; it is what makes the grammar's recursion well-founded.
pub open spec fn settle(tokens: Seq<Token>, next: int, floor: int) -> int {
    if next < floor {
        floor
    } else {
        next
    }
}

/// How many tokens lie at and after `pos`.
pub open spec fn remaining(tokens: Seq<Token>, pos: int) -> nat {
    if pos < tokens.len() {
        (tokens.len() - pos) as nat
    } else {
        0
    }
}

/// The rank of a level of binary operators among the grammar's rules.
pub open spec fn level_rank(level: nat) -> nat {
    if level >= 6 {
        16
    } else {
        (28 - 2 * level) as nat
    }
}

/// The token at `pos` if it has the given type, else an error with the
/// message given.
pub open spec fn consume(
    tokens: Seq<Token>,
    pos: int,
    token_type: TokenType,
    message: Seq<char>,
) -> Parsed<Token> {
    if check(tokens, pos, token_type) {
        ok(tokens[pos], pos + 1)
    } else {
        fail(ParsingErrorView::UnexpectedTokenError(tokens[pos], message), pos)
    }
}

/// Whether the token at `pos` is a binary operator of the given level:
/// 0 for `or`, 1 for `and`, 2 for equality, 3 for comparison, 4 for
/// addition and subtraction, 5 for multiplication and division.
pub open spec fn operator_at(tokens: Seq<Token>, pos: int, level: nat) -> bool {
    if level == 0 {
        check(tokens, pos, TokenType::Or)
    } else if level == 1 {
        check(tokens, pos, TokenType::And)
    } else if level == 2 {
        check(tokens, pos, TokenType::BangEqual) || check(tokens, pos, TokenType::EqualEqual)
    } else if level == 3 {
        check(tokens, pos, TokenType::Greater) || check(tokens, pos, TokenType::GreaterEqual)
            || check(tokens, pos, TokenType::Less) || check(tokens, pos, TokenType::LessEqual)
    } else if level == 4 {
        check(tokens, pos, TokenType::Minus) || check(tokens, pos, TokenType::Plus)
    } else if level == 5 {
        check(tokens, pos, TokenType::Slash) || check(tokens, pos, TokenType::Star)
    } else {
        false
    }
}

/// The node that a binary operator of the given level makes.
pub open spec fn joined(level: nat, left: ExprView, operator: Token, right: ExprView)
    -> ExprView {
    if level < 2 {
        ExprView::Logical(Box::new(left), operator, Box::new(right))
    } else {
        ExprView::Binary(Box::new(left), operator, Box::new(right))
    }
}

/// Whether the token at `pos` is a literal: a number, a string, `true`,
/// `false` or `nil`.
pub open spec fn literal_at(tokens: Seq<Token>, pos: int) -> bool {
    check(tokens, pos, TokenType::Number) || check(tokens, pos, TokenType::String) || check(
        tokens,
        pos,
        TokenType::False,
    ) || check(tokens, pos, TokenType::True) || check(tokens, pos, TokenType::Nil)
}

/// expression → assignment
pub open spec fn expression(tokens: Seq<Token>, pos: int) -> Parsed<ExprView>
    decreases remaining(tokens, pos), 30nat,
{
    assignment(tokens, pos)
}

/// assignment → ( call "." )? IDENTIFIER "=" assignment | or
///
/// The left-hand side is parsed as an expression first; after `=` it must
/// turn out to be a variable or a property.
pub open spec fn assignment(tokens: Seq<Token>, pos: int) -> Parsed<ExprView>
    decreases remaining(tokens, pos), 29nat,
{
    let target = binary(tokens, pos, 0);
    match target.result {
        Err(_) => target,
        Ok(left) => {
            let at = settle(tokens, target.next, pos);
            if check(tokens, at, TokenType::Equal) {
                let value = assignment(tokens, at + 1);
                match value.result {
                    Err(error) => fail(error, value.next),
                    Ok(right) => match left {
                        ExprView::Var(name, _) => ok(
                            ExprView::Assign(name, Box::new(right), None),
                            value.next,
                        ),
                        ExprView::Get(object, name) => ok(
                            ExprView::SetProperty(object, name, Box::new(right)),
                            value.next,
                        ),
                        _ => fail(
                            ParsingErrorView::InvalidAssignmentError(tokens[at]),
                            value.next,
                        ),
                    },
                }
            } else {
                ok(left, at)
            }
        },
    }
}

/// One level of left-associative binary operators: an operand of the next
/// level, then any number of operator and operand. Level 6 is `unary`.
pub open spec fn binary(tokens: Seq<Token>, pos: int, level: nat) -> Parsed<ExprView>
    decreases remaining(tokens, pos), level_rank(level),
{
    if level >= 6 {
        unary(tokens, pos)
    } else {
        let first = binary(tokens, pos, level + 1);
        match first.result {
            Err(_) => first,
            Ok(left) => binary_rest(tokens, settle(tokens, first.next, pos), level, left),
        }
    }
}

/// The operators and operands of one level that follow the operand `left`.
pub open spec fn binary_rest(tokens: Seq<Token>, pos: int, level: nat, left: ExprView) -> Parsed<
    ExprView,
>
    decreases remaining(tokens, pos), (level_rank(level) - 1) as nat,
{
    if level < 6 && operator_at(tokens, pos, level) {
        let operand = binary(tokens, pos + 1, level + 1);
        match operand.result {
            Err(_) => operand,
            Ok(right) => binary_rest(
                tokens,
                settle(tokens, operand.next, pos + 1),
                level,
                joined(level, left, tokens[pos], right),
            ),
        }
    } else {
        ok(left, pos)
    }
}

/// unary → ( "!" | "-" ) unary | call
pub open spec fn unary(tokens: Seq<Token>, pos: int) -> Parsed<ExprView>
    decreases remaining(tokens, pos), 15nat,
{
    if check(tokens, pos, TokenType::Bang) || check(tokens, pos, TokenType::Minus) {
        let operand = unary(tokens, pos + 1);
        match operand.result {
            Err(_) => operand,
            Ok(right) => ok(ExprView::Unary(tokens[pos], Box::new(right)), operand.next),
        }
    } else {
        call(tokens, pos)
    }
}

/// call → primary ( "(" arguments? ")" | "." IDENTIFIER )*
pub open spec fn call(tokens: Seq<Token>, pos: int) -> Parsed<ExprView>
    decreases remaining(tokens, pos), 14nat,
{
    let callee = primary(tokens, pos);
    match callee.result {
        Err(_) => callee,
        Ok(expr) => call_rest(tokens, settle(tokens, callee.next, pos), expr),
    }
}

/// The calls and property accesses that follow the expression `expr`.
pub open spec fn call_rest(tokens: Seq<Token>, pos: int, expr: ExprView) -> Parsed<ExprView>
    decreases remaining(tokens, pos), 13nat,
{
    if check(tokens, pos, TokenType::LeftParen) {
        let called = finish_call(tokens, pos + 1, expr);
        match called.result {
            Err(_) => called,
            Ok(made) => call_rest(tokens, settle(tokens, called.next, pos + 1), made),
        }
    } else if check(tokens, pos, TokenType::Dot) {
        let name = consume(
            tokens,
            pos + 1,
            TokenType::Identifier,
            "Expected property name after `.`."@,
        );
        match name.result {
            Err(error) => fail(error, name.next),
            Ok(name) => call_rest(tokens, pos + 2, ExprView::Get(Box::new(expr), name)),
        }
    } else {
        ok(expr, pos)
    }
}

/// The arguments and the closing parenthesis of a call, after the opening
/// one.
pub open spec fn finish_call(tokens: Seq<Token>, pos: int, callee: ExprView) -> Parsed<ExprView>
    decreases remaining(tokens, pos) + 1, 12nat,
{
    let arguments = if check(tokens, pos, TokenType::RightParen) {
        ok(Seq::<ExprView>::empty(), pos)
    } else {
        let first = expression(tokens, pos);
        match first.result {
            Err(error) => fail(error, first.next),
            Ok(argument) => arguments_rest(
                tokens,
                settle(tokens, first.next, pos),
                seq![argument],
            ),
        }
    };
    match arguments.result {
        Err(error) => fail(error, arguments.next),
        Ok(arguments_list) => {
            let paren = consume(
                tokens,
                arguments.next,
                TokenType::RightParen,
                "Expect `)` after arguments."@,
            );
            match paren.result {
                Err(error) => fail(error, paren.next),
                Ok(paren_token) => ok(
                    ExprView::Call(Box::new(callee), arguments_list, paren_token),
                    paren.next,
                ),
            }
        },
    }
}

/// The arguments that follow those given, each after a comma.
pub open spec fn arguments_rest(tokens: Seq<Token>, pos: int, arguments: Seq<ExprView>) -> Parsed<
    Seq<ExprView>,
>
    decreases remaining(tokens, pos) + 1, 11nat,
{
    if check(tokens, pos, TokenType::Comma) {
        if arguments.len() >= arity_limit() {
            fail(ParsingErrorView::TooManyArgumentsError, pos + 1)
        } else {
            let next = expression(tokens, pos + 1);
            match next.result {
                Err(error) => fail(error, next.next),
                Ok(argument) => arguments_rest(
                    tokens,
                    settle(tokens, next.next, pos + 1),
                    arguments.push(argument),
                ),
            }
        }
    } else {
        ok(arguments, pos)
    }
}

/// primary → NUMBER | STRING | "true" | "false" | "nil" | IDENTIFIER
///         | "this" | "super" "." IDENTIFIER | "(" expression ")"
pub open spec fn primary(tokens: Seq<Token>, pos: int) -> Parsed<ExprView>
    decreases remaining(tokens, pos), 10nat,
{
    if literal_at(tokens, pos) {
        match tokens[pos].literal {
            Some(literal) => ok(ExprView::Literal(literal), pos + 1),
            None => fail(ParsingErrorView::InternalError("Missing literal value"@), pos + 1),
        }
    } else if check(tokens, pos, TokenType::Identifier) {
        ok(ExprView::Var(tokens[pos], None), pos + 1)
    } else if check(tokens, pos, TokenType::This) {
        ok(ExprView::This(tokens[pos], None), pos + 1)
    } else if check(tokens, pos, TokenType::Super) {
        let dot = consume(tokens, pos + 1, TokenType::Dot, "Expect '.' after 'super'."@);
        match dot.result {
            Err(error) => fail(error, dot.next),
            Ok(_) => {
                let method = consume(
                    tokens,
                    pos + 2,
                    TokenType::Identifier,
                    "Expect superclass method name."@,
                );
                match method.result {
                    Err(error) => fail(error, method.next),
                    Ok(name) => ok(ExprView::Super(tokens[pos], name, None), method.next),
                }
            },
        }
    } else if check(tokens, pos, TokenType::LeftParen) {
        let inner = expression(tokens, pos + 1);
        match inner.result {
            Err(_) => inner,
            Ok(expr) => {
                let paren = consume(
                    tokens,
                    inner.next,
                    TokenType::RightParen,
                    "Expected ')' after expression."@,
                );
                match paren.result {
                    Err(error) => fail(error, paren.next),
                    Ok(_) => ok(ExprView::Grouping(Box::new(expr)), paren.next),
                }
            },
        }
    } else if over(tokens, pos) {
        fail(ParsingErrorView::UnexpectedEofError, pos)
    } else {
        fail(ParsingErrorView::UnexpectedTokenError(tokens[pos], "Unexpected token"@), pos)
    }
}

/// Whether a statement can start with a token of this type: where error
/// recovery stops discarding tokens.
pub open spec fn starts_statement(token_type: TokenType) -> bool {
    token_type == TokenType::Class || token_type == TokenType::Fun || token_type
        == TokenType::Var || token_type == TokenType::For || token_type == TokenType::If
        || token_type == TokenType::While || token_type == TokenType::Print || token_type
        == TokenType::Return
}

/// Where error recovery stops, scanning from `pos`: after a semicolon,
/// before a token that starts a statement, or at the end.
pub open spec fn boundary(tokens: Seq<Token>, pos: int) -> int
    decreases tokens.len() - pos,
{
    if over(tokens, pos) {
        pos
    } else if pos >= 1 && tokens[pos - 1].token_type == TokenType::Semicolon {
        pos
    } else if starts_statement(tokens[pos].token_type) {
        pos
    } else {
        boundary(tokens, pos + 1)
    }
}

/// Where parsing resumes after an error at `pos`: one token is discarded,
/// then all tokens up to the next statement boundary.
pub open spec fn synchronize(tokens: Seq<Token>, pos: int) -> int {
    if over(tokens, pos) {
        pos
    } else {
        boundary(tokens, pos + 1)
    }
}

/// The parameters that follow those given, each after a comma.
pub open spec fn parameters_rest(tokens: Seq<Token>, pos: int, parameters: Seq<Token>) -> Parsed<
    Seq<Token>,
>
    decreases tokens.len() - pos,
{
    if check(tokens, pos, TokenType::Comma) {
        if parameters.len() >= arity_limit() {
            fail(ParsingErrorView::TooManyParametersError, pos + 1)
        } else {
            let name = consume(
                tokens,
                pos + 1,
                TokenType::Identifier,
                "Expected parameter name"@,
            );
            match name.result {
                Err(error) => fail(error, name.next),
                Ok(parameter) => parameters_rest(tokens, pos + 2, parameters.push(parameter)),
            }
        }
    } else {
        ok(parameters, pos)
    }
}

/// The parameter list of a function, after the opening parenthesis.
pub open spec fn parameters(tokens: Seq<Token>, pos: int) -> Parsed<Seq<Token>> {
    if check(tokens, pos, TokenType::RightParen) {
        ok(Seq::<Token>::empty(), pos)
    } else {
        let first = consume(tokens, pos, TokenType::Identifier, "Expected parameter name"@);
        match first.result {
            Err(error) => fail(error, first.next),
            Ok(parameter) => parameters_rest(tokens, pos + 1, seq![parameter]),
        }
    }
}

/// declaration → "class" classDecl | "var" varDecl | "fun" function
///             | statement
///
/// After an error, parsing resumes at the next statement boundary.
pub open spec fn declaration(tokens: Seq<Token>, pos: int) -> Parsed<StmtView>
    decreases remaining(tokens, pos), 40nat,
{
    let parsed = if check(tokens, pos, TokenType::Class) {
        class_declaration(tokens, pos + 1)
    } else if check(tokens, pos, TokenType::Var) {
        var_declaration(tokens, pos + 1)
    } else if check(tokens, pos, TokenType::Fun) {
        let function = fun_declaration(tokens, pos + 1, "function"@);
        match function.result {
            Err(error) => fail(error, function.next),
            Ok(made) => ok(StmtView::Func(Box::new(made)), function.next),
        }
    } else {
        statement(tokens, pos)
    };
    match parsed.result {
        Ok(_) => parsed,
        Err(error) => fail(error, synchronize(tokens, parsed.next)),
    }
}

/// classDecl → IDENTIFIER ( "<" IDENTIFIER )? "{" function* "}"
pub open spec fn class_declaration(tokens: Seq<Token>, pos: int) -> Parsed<StmtView>
    decreases remaining(tokens, pos) + 1, 36nat,
{
    let name = consume(tokens, pos, TokenType::Identifier, "Expected class name"@);
    match name.result {
        Err(error) => fail(error, name.next),
        Ok(class_name) => {
            let superclass = if check(tokens, pos + 1, TokenType::Less) {
                let parent = consume(
                    tokens,
                    pos + 2,
                    TokenType::Identifier,
                    "Expected superclass name"@,
                );
                match parent.result {
                    Err(error) => fail(error, parent.next),
                    Ok(parent_name) => ok(Some(ExprView::Var(parent_name, None)), pos + 3),
                }
            } else {
                ok(None, pos + 1)
            };
            match superclass.result {
                Err(error) => fail(error, superclass.next),
                Ok(parent) => {
                    let brace = consume(
                        tokens,
                        superclass.next,
                        TokenType::LeftBrace,
                        "Expected `{` before class body."@,
                    );
                    match brace.result {
                        Err(error) => fail(error, brace.next),
                        Ok(_) => {
                            let methods = methods_rest(tokens, brace.next, Seq::empty());
                            match methods.result {
                                Err(error) => fail(error, methods.next),
                                Ok(list) => {
                                    let close = consume(
                                        tokens,
                                        methods.next,
                                        TokenType::RightBrace,
                                        "Expected `}` after class body."@,
                                    );
                                    match close.result {
                                        Err(error) => fail(error, close.next),
                                        Ok(_) => ok(
                                            StmtView::Class(class_name, parent, list),
                                            close.next,
                                        ),
                                    }
                                },
                            }
                        },
                    }
                },
            }
        },
    }
}

/// The methods of a class body that follow those given.
pub open spec fn methods_rest(tokens: Seq<Token>, pos: int, methods: Seq<StmtView>) -> Parsed<
    Seq<StmtView>,
>
    decreases remaining(tokens, pos) + 2, 35nat,
{
    if check(tokens, pos, TokenType::RightBrace) || over(tokens, pos) {
        ok(methods, pos)
    } else {
        let method = fun_declaration(tokens, pos, "method"@);
        match method.result {
            Err(error) => fail(error, method.next),
            Ok(made) => methods_rest(
                tokens,
                settle(tokens, method.next, pos + 1),
                methods.push(StmtView::Func(Box::new(made))),
            ),
        }
    }
}

/// varDecl → IDENTIFIER ( "=" expression )? ";"
pub open spec fn var_declaration(tokens: Seq<Token>, pos: int) -> Parsed<StmtView>
    decreases remaining(tokens, pos) + 1, 36nat,
{
    let name = consume(tokens, pos, TokenType::Identifier, "Expected variable name"@);
    match name.result {
        Err(error) => fail(error, name.next),
        Ok(variable) => {
            let initial = if check(tokens, pos + 1, TokenType::Equal) {
                expression(tokens, pos + 2)
            } else {
                ok(ExprView::Literal(Literal::Nil), pos + 1)
            };
            match initial.result {
                Err(error) => fail(error, initial.next),
                Ok(value) => {
                    let end = consume(
                        tokens,
                        initial.next,
                        TokenType::Semicolon,
                        "Expect ';' after variable declaration."@,
                    );
                    match end.result {
                        Err(error) => fail(error, end.next),
                        Ok(_) => ok(StmtView::Var(variable, value), end.next),
                    }
                },
            }
        },
    }
}

/// function → IDENTIFIER "(" parameters? ")" "{" declaration* "}"
///
/// `kind` says in the error messages what is being declared.
pub open spec fn fun_declaration(tokens: Seq<Token>, pos: int, kind: Seq<char>) -> Parsed<
    FunctionView,
>
    decreases remaining(tokens, pos) + 1, 36nat,
{
    let name = consume(tokens, pos, TokenType::Identifier, "Expected "@ + kind + " name."@);
    match name.result {
        Err(error) => fail(error, name.next),
        Ok(function_name) => {
            let open = consume(
                tokens,
                pos + 1,
                TokenType::LeftParen,
                "Expected `(` after "@ + kind + " name."@,
            );
            match open.result {
                Err(error) => fail(error, open.next),
                Ok(_) => {
                    let params = parameters(tokens, pos + 2);
                    match params.result {
                        Err(error) => fail(error, params.next),
                        Ok(list) => {
                            let close = consume(
                                tokens,
                                params.next,
                                TokenType::RightParen,
                                "Expect `)` after parameters."@,
                            );
                            match close.result {
                                Err(error) => fail(error, close.next),
                                Ok(_) => {
                                    let brace = consume(
                                        tokens,
                                        close.next,
                                        TokenType::LeftBrace,
                                        "Expected `{` before "@ + kind + " body."@,
                                    );
                                    match brace.result {
                                        Err(error) => fail(error, brace.next),
                                        Ok(_) => {
                                            let body = block_body(
                                                tokens,
                                                settle(tokens, brace.next, pos + 1),
                                            );
                                            match body.result {
                                                Err(error) => fail(error, body.next),
                                                Ok(statements) => ok(
                                                    FunctionView {
                                                        name: function_name,
                                                        params: list,
                                                        body: statements,
                                                    },
                                                    body.next,
                                                ),
                                            }
                                        },
                                    }
                                },
                            }
                        },
                    }
                },
            }
        },
    }
}

/// statement → "print" printStmt | "{" block | "if" ifStmt
///           | "while" whileStmt | "for" forStmt | "return" returnStmt
///           | exprStmt
pub open spec fn statement(tokens: Seq<Token>, pos: int) -> Parsed<StmtView>
    decreases remaining(tokens, pos), 39nat,
{
    if check(tokens, pos, TokenType::Print) {
        print_statement(tokens, pos + 1)
    } else if check(tokens, pos, TokenType::LeftBrace) {
        block_statement(tokens, pos + 1)
    } else if check(tokens, pos, TokenType::If) {
        if_statement(tokens, pos + 1)
    } else if check(tokens, pos, TokenType::While) {
        while_statement(tokens, pos + 1)
    } else if check(tokens, pos, TokenType::For) {
        for_statement(tokens, pos + 1)
    } else if check(tokens, pos, TokenType::Return) {
        return_statement(tokens, pos + 1)
    } else {
        expression_statement(tokens, pos)
    }
}

/// exprStmt → expression ";"
pub open spec fn expression_statement(tokens: Seq<Token>, pos: int) -> Parsed<StmtView>
    decreases remaining(tokens, pos), 36nat,
{
    let expr = expression(tokens, pos);
    match expr.result {
        Err(error) => fail(error, expr.next),
        Ok(value) => {
            let end = consume(
                tokens,
                expr.next,
                TokenType::Semicolon,
                "Expect ';' after expression."@,
            );
            match end.result {
                Err(error) => fail(error, end.next),
                Ok(_) => ok(StmtView::Expr(value), end.next),
            }
        },
    }
}

/// printStmt → expression ";"
pub open spec fn print_statement(tokens: Seq<Token>, pos: int) -> Parsed<StmtView>
    decreases remaining(tokens, pos) + 1, 36nat,
{
    let expr = expression(tokens, pos);
    match expr.result {
        Err(error) => fail(error, expr.next),
        Ok(value) => {
            let end = consume(
                tokens,
                expr.next,
                TokenType::Semicolon,
                "Expect ';' after expression."@,
            );
            match end.result {
                Err(error) => fail(error, end.next),
                Ok(_) => ok(StmtView::Print(value), end.next),
            }
        },
    }
}

/// block → declaration* "}"
pub open spec fn block_statement(tokens: Seq<Token>, pos: int) -> Parsed<StmtView>
    decreases remaining(tokens, pos) + 1, 37nat,
{
    let body = block_body(tokens, pos);
    match body.result {
        Err(error) => fail(error, body.next),
        Ok(statements) => ok(StmtView::Block(statements), body.next),
    }
}

/// The statements of a block and its closing brace, after the opening one.
pub open spec fn block_body(tokens: Seq<Token>, pos: int) -> Parsed<Seq<StmtView>>
    decreases remaining(tokens, pos) + 1, 36nat,
{
    let statements = block_rest(tokens, pos, Seq::empty());
    match statements.result {
        Err(error) => fail(error, statements.next),
        Ok(list) => {
            let close = consume(
                tokens,
                statements.next,
                TokenType::RightBrace,
                "Expected `}` after block"@,
            );
            match close.result {
                Err(error) => fail(error, close.next),
                Ok(_) => ok(list, close.next),
            }
        },
    }
}

/// The statements of a block that follow those given.
pub open spec fn block_rest(tokens: Seq<Token>, pos: int, statements: Seq<StmtView>) -> Parsed<
    Seq<StmtView>,
>
    decreases remaining(tokens, pos) + 1, 35nat,
{
    if check(tokens, pos, TokenType::RightBrace) || over(tokens, pos) {
        ok(statements, pos)
    } else {
        let first = declaration(tokens, pos);
        match first.result {
            Err(error) => fail(error, first.next),
            Ok(stmt) => block_rest(
                tokens,
                settle(tokens, first.next, pos + 1),
                statements.push(stmt),
            ),
        }
    }
}

/// ifStmt → "(" expression ")" statement ( "else" statement )?
pub open spec fn if_statement(tokens: Seq<Token>, pos: int) -> Parsed<StmtView>
    decreases remaining(tokens, pos) + 1, 36nat,
{
    let open = consume(tokens, pos, TokenType::LeftParen, "Expected `(` after `if`"@);
    match open.result {
        Err(error) => fail(error, open.next),
        Ok(_) => {
            let condition = expression(tokens, pos + 1);
            match condition.result {
                Err(error) => fail(error, condition.next),
                Ok(test) => {
                    let close = consume(
                        tokens,
                        settle(tokens, condition.next, pos + 1),
                        TokenType::RightParen,
                        "Expected `)` after condition"@,
                    );
                    match close.result {
                        Err(error) => fail(error, close.next),
                        Ok(_) => {
                            let then_branch = statement(tokens, close.next);
                            match then_branch.result {
                                Err(error) => fail(error, then_branch.next),
                                Ok(then_stmt) => {
                                    let at = settle(tokens, then_branch.next, close.next);
                                    if check(tokens, at, TokenType::Else) {
                                        let else_branch = statement(tokens, at + 1);
                                        match else_branch.result {
                                            Err(error) => fail(error, else_branch.next),
                                            Ok(else_stmt) => ok(
                                                StmtView::If(
                                                    test,
                                                    Box::new(then_stmt),
                                                    Some(Box::new(else_stmt)),
                                                ),
                                                else_branch.next,
                                            ),
                                        }
                                    } else {
                                        ok(StmtView::If(test, Box::new(then_stmt), None), at)
                                    }
                                },
                            }
                        },
                    }
                },
            }
        },
    }
}

/// whileStmt → "(" expression ")" statement
pub open spec fn while_statement(tokens: Seq<Token>, pos: int) -> Parsed<StmtView>
    decreases remaining(tokens, pos) + 1, 36nat,
{
    let open = consume(tokens, pos, TokenType::LeftParen, "Expected `(` after `while`"@);
    match open.result {
        Err(error) => fail(error, open.next),
        Ok(_) => {
            let condition = expression(tokens, pos + 1);
            match condition.result {
                Err(error) => fail(error, condition.next),
                Ok(test) => {
                    let close = consume(
                        tokens,
                        settle(tokens, condition.next, pos + 1),
                        TokenType::RightParen,
                        "Expected `)` after condition"@,
                    );
                    match close.result {
                        Err(error) => fail(error, close.next),
                        Ok(_) => {
                            let body = statement(tokens, close.next);
                            match body.result {
                                Err(error) => fail(error, body.next),
                                Ok(body_stmt) => ok(
                                    StmtView::While(test, Box::new(body_stmt)),
                                    body.next,
                                ),
                            }
                        },
                    }
                },
            }
        },
    }
}

/// The first clause of a `for` statement: nothing, a variable declaration
/// or an expression statement.
pub open spec fn for_initializer(tokens: Seq<Token>, pos: int) -> Parsed<Option<StmtView>>
    decreases remaining(tokens, pos) + 1, 37nat,
{
    if check(tokens, pos, TokenType::Semicolon) {
        ok(None, pos + 1)
    } else if check(tokens, pos, TokenType::Var) {
        let declared = var_declaration(tokens, pos + 1);
        match declared.result {
            Err(error) => fail(error, declared.next),
            Ok(stmt) => ok(Some(stmt), declared.next),
        }
    } else {
        let evaluated = expression_statement(tokens, pos);
        match evaluated.result {
            Err(error) => fail(error, evaluated.next),
            Ok(stmt) => ok(Some(stmt), evaluated.next),
        }
    }
}

/// A clause of a `for` statement that may be empty: nothing before the
/// token that closes it, or an expression and then that token.
pub open spec fn for_clause(
    tokens: Seq<Token>,
    pos: int,
    closing: TokenType,
    message: Seq<char>,
) -> Parsed<Option<ExprView>>
    decreases remaining(tokens, pos) + 1, 37nat,
{
    if check(tokens, pos, closing) {
        ok(None, pos + 1)
    } else {
        let expr = expression(tokens, pos);
        match expr.result {
            Err(error) => fail(error, expr.next),
            Ok(value) => {
                let end = consume(tokens, expr.next, closing, message);
                match end.result {
                    Err(error) => fail(error, end.next),
                    Ok(_) => ok(Some(value), end.next),
                }
            },
        }
    }
}

/// What a `for` statement is short for: the body followed by the
/// increment, in a `while` loop on the condition (`true` where there is
/// none), after the initializer.
pub open spec fn desugared(
    initializer: Option<StmtView>,
    condition: Option<ExprView>,
    increment: Option<ExprView>,
    body: StmtView,
) -> StmtView {
    let stepped = match increment {
        Some(step) => StmtView::Block(seq![body, StmtView::Expr(step)]),
        None => body,
    };
    let test = match condition {
        Some(test) => test,
        None => ExprView::Literal(Literal::Bool(true)),
    };
    let looped = StmtView::While(test, Box::new(stepped));
    match initializer {
        Some(first) => StmtView::Block(seq![first, looped]),
        None => looped,
    }
}

/// forStmt → "(" ( varDecl | exprStmt | ";" ) expression? ";"
///           expression? ")" statement
pub open spec fn for_statement(tokens: Seq<Token>, pos: int) -> Parsed<StmtView>
    decreases remaining(tokens, pos) + 1, 38nat,
{
    let open = consume(tokens, pos, TokenType::LeftParen, "Expected `(` after `for`"@);
    match open.result {
        Err(error) => fail(error, open.next),
        Ok(_) => {
            let initializer = for_initializer(tokens, pos + 1);
            match initializer.result {
                Err(error) => fail(error, initializer.next),
                Ok(first) => {
                    let condition = for_clause(
                        tokens,
                        settle(tokens, initializer.next, pos + 1),
                        TokenType::Semicolon,
                        "Expect `;` after loop condition."@,
                    );
                    match condition.result {
                        Err(error) => fail(error, condition.next),
                        Ok(test) => {
                            let increment = for_clause(
                                tokens,
                                settle(tokens, condition.next, pos + 1),
                                TokenType::RightParen,
                                "Expect `)` after for clause."@,
                            );
                            match increment.result {
                                Err(error) => fail(error, increment.next),
                                Ok(step) => {
                                    let body = statement(
                                        tokens,
                                        settle(tokens, increment.next, pos + 1),
                                    );
                                    match body.result {
                                        Err(error) => fail(error, body.next),
                                        Ok(body_stmt) => ok(
                                            desugared(first, test, step, body_stmt),
                                            body.next,
                                        ),
                                    }
                                },
                            }
                        },
                    }
                },
            }
        },
    }
}

/// returnStmt → expression? ";"
///
/// The keyword is the token before `pos`.
pub open spec fn return_statement(tokens: Seq<Token>, pos: int) -> Parsed<StmtView>
    decreases remaining(tokens, pos) + 1, 36nat,
{
    let value = if check(tokens, pos, TokenType::Semicolon) {
        ok(ExprView::Literal(Literal::Nil), pos)
    } else {
        expression(tokens, pos)
    };
    match value.result {
        Err(error) => fail(error, value.next),
        Ok(returned) => {
            let end = consume(
                tokens,
                value.next,
                TokenType::Semicolon,
                "Expect `;` after return value."@,
            );
            match end.result {
                Err(error) => fail(error, end.next),
                Ok(_) => ok(StmtView::Return(tokens[pos - 1], returned), end.next),
            }
        },
    }
}

/// The statements and the syntax errors of a program.
pub struct Program {
    pub statements: Seq<StmtView>,
    pub errors: Seq<ParsingErrorView>,
}

/// The statements and the errors of the declarations from `pos` on, after
/// those given. An error does not end the parse.
pub open spec fn program_from(
    tokens: Seq<Token>,
    pos: int,
    statements: Seq<StmtView>,
    errors: Seq<ParsingErrorView>,
) -> Program
    decreases remaining(tokens, pos),
{
    if over(tokens, pos) {
        Program { statements, errors }
    } else {
        let first = declaration(tokens, pos);
        let next = settle(tokens, first.next, pos + 1);
        match first.result {
            Ok(stmt) => program_from(tokens, next, statements.push(stmt), errors),
            Err(error) => program_from(tokens, next, statements, errors.push(error)),
        }
    }
}

/// The outcome of parsing a program: its statements where there is no
/// syntax error, else all its syntax errors.
pub open spec fn program(tokens: Seq<Token>) -> Result<Seq<StmtView>, Seq<ParsingErrorView>> {
    let parsed = program_from(tokens, 0, Seq::empty(), Seq::empty());
    if parsed.errors.len() == 0 {
        Ok(parsed.statements)
    } else {
        Err(parsed.errors)
    }
}

} // verus!
