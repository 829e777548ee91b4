//! The recursive-descent parser: from tokens to a syntax tree, or to the
//! list of all syntax errors. Every function here is verified to compute
//! what `grammar` says.

use vstd::prelude::*;
use vstd::string::StringExecFns;
use std::rc::Rc;
use crate::errors::{ParsingError, ParsingErrorView};
use crate::expr::{expr_views, Expr, ExprView};
use crate::grammar::{
    arguments_rest, assignment, binary, binary_rest, block_body, block_rest, block_statement,
    boundary, call, call_rest, check, class_declaration, consume, declaration, desugared,
    expression, expression_statement, finish_call, for_clause, for_initializer, for_statement,
    fun_declaration, if_statement, methods_rest, operator_at, over, parameters,
    parameters_rest, primary, print_statement, program, program_from, remaining,
    return_statement, statement, synchronize, terminated, unary, var_declaration,
    while_statement,
};
use crate::stmt::{
    all_tidy, declares, list_tidy, stmt_views, Function, FunctionView, Stmt, StmtView,
};
use crate::token::{Literal, Token, TokenType};

verus! {

/// The most parameters that a function may declare, and the most arguments
/// that a call may pass.
pub const ARITY_LIMIT: usize = 8;

/// The outcome of parsing an expression, by views.
pub open spec fn expr_result(r: Result<Expr, ParsingError>) -> Result<ExprView, ParsingErrorView> {
    match r {
        Ok(expr) => Ok(expr@),
        Err(error) => Err(error@),
    }
}

/// The outcome of parsing a statement, by views.
pub open spec fn stmt_result(r: Result<Stmt, ParsingError>) -> Result<StmtView, ParsingErrorView> {
    match r {
        Ok(stmt) => Ok(stmt@),
        Err(error) => Err(error@),
    }
}

/// The outcome of parsing a list of statements, by views.
pub open spec fn stmts_result(r: Result<Vec<Stmt>, ParsingError>) -> Result<
    Seq<StmtView>,
    ParsingErrorView,
> {
    match r {
        Ok(stmts) => Ok(stmt_views(stmts, stmts@.len())),
        Err(error) => Err(error@),
    }
}

/// The outcome of parsing a function, by views.
pub open spec fn function_result(r: Result<Function, ParsingError>) -> Result<
    FunctionView,
    ParsingErrorView,
> {
    match r {
        Ok(function) => Ok(function@),
        Err(error) => Err(error@),
    }
}

/// The outcome of consuming a token, by views.
pub open spec fn token_result(r: Result<Token, ParsingError>) -> Result<Token, ParsingErrorView> {
    match r {
        Ok(token) => Ok(token),
        Err(error) => Err(error@),
    }
}

/// The view of an expression that may be absent.
pub open spec fn optional_expr(expr: Option<Expr>) -> Option<ExprView> {
    match expr {
        Some(expr) => Some(expr@),
        None => None,
    }
}

/// The view of a statement that may be absent.
pub open spec fn optional_stmt(stmt: Option<Stmt>) -> Option<StmtView> {
    match stmt {
        Some(stmt) => Some(stmt@),
        None => None,
    }
}

/// The views of a list of syntax errors.
pub open spec fn parsing_errors_view(errors: Seq<ParsingError>) -> Seq<ParsingErrorView> {
    Seq::new(errors.len(), |i: int| errors[i]@)
}

/// The outcome of parsing a program, by views.
pub open spec fn program_result(r: Result<Vec<Stmt>, Vec<ParsingError>>) -> Result<
    Seq<StmtView>,
    Seq<ParsingErrorView>,
> {
    match r {
        Ok(stmts) => Ok(stmt_views(stmts, stmts@.len())),
        Err(errors) => Err(parsing_errors_view(errors@)),
    }
}

/// The views of the first elements of a list depend on those elements
/// alone.
pub proof fn lemma_stmt_views_prefix(a: Vec<Stmt>, b: Vec<Stmt>, upto: nat)
    requires
        upto <= a@.len(),
        upto <= b@.len(),
        forall|i: int| 0 <= i < upto ==> a@[i] == b@[i],
    ensures
        stmt_views(a, upto) == stmt_views(b, upto),
    decreases upto,
{
    if upto > 0 {
        lemma_stmt_views_prefix(a, b, (upto - 1) as nat);
    }
}

/// The views of the first elements of a list depend on those elements
/// alone.
pub proof fn lemma_expr_views_prefix(a: Vec<Expr>, b: Vec<Expr>, upto: nat)
    requires
        upto <= a@.len(),
        upto <= b@.len(),
        forall|i: int| 0 <= i < upto ==> a@[i] == b@[i],
    ensures
        expr_views(a, upto) == expr_views(b, upto),
    decreases upto,
{
    if upto > 0 {
        lemma_expr_views_prefix(a, b, (upto - 1) as nat);
    }
}

/// Appends a statement to a list; the list's view gains the statement's.
fn push_stmt(stmts: &mut Vec<Stmt>, stmt: Stmt)
    ensures
        final(stmts)@ == old(stmts)@.push(stmt),
        stmt_views(*final(stmts), final(stmts)@.len()) == stmt_views(
            *old(stmts),
            old(stmts)@.len(),
        ).push(stmt@),
        list_tidy(*old(stmts)) && all_tidy(stmt) ==> list_tidy(*final(stmts)),
{
    stmts.push(stmt);
    proof {
        lemma_stmt_views_prefix(*stmts, *old(stmts), old(stmts)@.len());
    }
}

/// Appends an expression to a list; the list's view gains the
/// expression's.
fn push_expr(exprs: &mut Vec<Expr>, expr: Expr)
    ensures
        final(exprs)@ == old(exprs)@.push(expr),
        expr_views(*final(exprs), final(exprs)@.len()) == expr_views(
            *old(exprs),
            old(exprs)@.len(),
        ).push(expr@),
{
    exprs.push(expr);
    proof {
        lemma_expr_views_prefix(*exprs, *old(exprs), old(exprs)@.len());
    }
}

/// A message made of three parts.
fn message_of(before: &str, kind: &str, after: &str) -> (r: String)
    ensures
        r@ == before@ + kind@ + after@,
{
    let mut message = String::from_str(before);
    message.append(kind);
    message.append(after);
    message
}

/// A copy of a token list.
fn copy_tokens(tokens: &Vec<Token>) -> (r: Vec<Token>)
    ensures
        r@ == tokens@,
{
    let mut copy: Vec<Token> = Vec::new();
    let mut i: usize = 0;
    while i < tokens.len()
        invariant
            i <= tokens@.len(),
            copy@ == tokens@.subrange(0, i as int),
        decreases tokens@.len() - i,
    {
        copy.push(tokens[i].clone());
        i += 1;
        assert(copy@ =~= tokens@.subrange(0, i as int));
    }
    assert(copy@ =~= tokens@);
    copy
}

/// Rewrites the parts of a `for` statement as a `while` loop.
fn desugar(initializer: Option<Stmt>, condition: Option<Expr>, increment: Option<Expr>, body: Stmt)
    -> (r: Stmt)
    requires
        all_tidy(body),
        !declares(body),
        initializer matches Some(first) ==> all_tidy(first),
    ensures
        r@ == desugared(
            optional_stmt(initializer),
            optional_expr(condition),
            optional_expr(increment),
            body@,
        ),
        all_tidy(r),
        !declares(r),
{
    let ghost body_view = body@;
    let ghost step_view = optional_expr(increment);
    let stepped = match increment {
        Some(step) => {
            let ghost step_stmt = StmtView::Expr(step@);
            let mut pair: Vec<Stmt> = Vec::new();
            assert(list_tidy(pair));
            push_stmt(&mut pair, body);
            push_stmt(&mut pair, Stmt::Expr(step));
            proof {
                assert(stmt_views(pair, pair@.len()) =~= seq![body_view, step_stmt]);
            }
            Stmt::Block(pair)
        },
        None => body,
    };
    let ghost stepped_view = stepped@;
    assert(all_tidy(stepped) && !declares(stepped));
    proof {
        assert(stepped_view == match step_view {
            Some(step) => StmtView::Block(seq![body_view, StmtView::Expr(step)]),
            None => body_view,
        });
    }
    let test = match condition {
        Some(test) => test,
        None => Expr::Literal(Literal::Bool(true)),
    };
    let ghost test_view = test@;
    let looped = Stmt::While(test, Box::new(stepped));
    let ghost looped_view = looped@;
    assert(all_tidy(looped) && !declares(looped));
    proof {
        assert(looped_view == StmtView::While(test_view, Box::new(stepped_view)));
    }
    match initializer {
        Some(first) => {
            let ghost first_view = first@;
            let mut pair: Vec<Stmt> = Vec::new();
            assert(list_tidy(pair));
            push_stmt(&mut pair, first);
            push_stmt(&mut pair, looped);
            proof {
                assert(stmt_views(pair, pair@.len()) =~= seq![first_view, looped_view]);
            }
            Stmt::Block(pair)
        },
        None => looped,
    }
}

/// The parser of a token list.
#[derive(Debug)]
pub struct Parser {
    pub tokens: Vec<Token>,
}

impl Parser {
    /// A parser for the tokens.
    pub fn new(tokens: Vec<Token>) -> (r: Parser)
        ensures
            r.tokens == tokens,
    {
        Parser { tokens }
    }

    /// Parses the tokens, which must end with the end token: the
    /// statements of the program where it has no syntax error, else all
    /// its syntax errors.
    pub fn ast(&self) -> (r: Result<Vec<Stmt>, Vec<ParsingError>>)
        requires
            terminated(self.tokens@),
        ensures
            program_result(r) == program(self.tokens@),
            r matches Ok(stmts) ==> list_tidy(stmts),
    {
        let mut parser = TokenParser::new(copy_tokens(&self.tokens));
        parser.parse()
    }
}

/// The parser's cursor over the tokens.
#[derive(Debug)]
pub struct TokenParser {
    pub tokens: Vec<Token>,
    pub current: usize,
}

impl TokenParser {
    /// Whether the token list ends with the end token and the cursor lies
    /// inside it.
    pub open spec fn wf(&self) -> bool {
        terminated(self.tokens@) && self.current < self.tokens@.len()
    }

    /// A cursor at the first token.
    pub fn new(tokens: Vec<Token>) -> (r: TokenParser)
        ensures
            r.tokens == tokens,
            r.current == 0,
    {
        TokenParser { tokens, current: 0 }
    }

    /// The token at the cursor.
    fn peek(&self) -> (r: &Token)
        requires
            self.wf(),
        ensures
            *r == self.tokens@[self.current as int],
    {
        &self.tokens[self.current]
    }

    /// The token before the cursor.
    fn previous(&self) -> (r: &Token)
        requires
            self.wf(),
            self.current > 0,
        ensures
            *r == self.tokens@[self.current - 1],
    {
        &self.tokens[self.current - 1]
    }

    /// Whether the token at the cursor is the end token.
    fn is_over(&self) -> (r: bool)
        requires
            self.wf(),
        ensures
            r == over(self.tokens@, self.current as int),
    {
        self.tokens[self.current].token_type == TokenType::Eof
    }

    /// Whether the token at the cursor has the given type.
    fn check(&self, token_type: TokenType) -> (r: bool)
        requires
            self.wf(),
        ensures
            r == check(self.tokens@, self.current as int, token_type),
    {
        if self.is_over() {
            false
        } else {
            self.tokens[self.current].token_type == token_type
        }
    }

    /// Moves the cursor past one token, unless that is the end token.
    fn advance(&mut self)
        requires
            old(self).wf(),
        ensures
            final(self).wf(),
            final(self).tokens == old(self).tokens,
            final(self).current == (if over(old(self).tokens@, old(self).current as int) {
                old(self).current as int
            } else {
                old(self).current + 1
            }),
    {
        if !self.is_over() {
            let count = self.tokens.len();
            assert(self.current + 1 < count);
            self.current += 1;
        }
    }

    /// Moves the cursor past the token at it if that has one of the given
    /// types; says whether it did.
    #[verifier::loop_isolation(false)]
    fn next_is(&mut self, types: Vec<TokenType>) -> (r: bool)
        requires
            old(self).wf(),
        ensures
            final(self).wf(),
            final(self).tokens == old(self).tokens,
            r == exists|i: int|
                0 <= i < types@.len() && check(
                    old(self).tokens@,
                    old(self).current as int,
                    #[trigger] types@[i],
                ),
            final(self).current == (if r {
                old(self).current + 1
            } else {
                old(self).current as int
            }),
    {
        let mut i: usize = 0;
        while i < types.len()
            invariant
                i <= types@.len(),
                self.wf(),
                *self == *old(self),
                forall|j: int|
                    0 <= j < i ==> !check(self.tokens@, self.current as int, #[trigger] types@[j]),
            decreases types@.len() - i,
        {
            if self.check(types[i]) {
                self.advance();
                return true;
            }
            i += 1;
        }
        false
    }

    /// Moves the cursor past the token at it if that has the given type;
    /// else reports the token with the message given.
    fn consume(&mut self, token_type: TokenType, message: String) -> (r: Result<
        Token,
        ParsingError,
    >)
        requires
            old(self).wf(),
        ensures
            final(self).wf(),
            final(self).tokens == old(self).tokens,
            final(self).current == consume(
                old(self).tokens@,
                old(self).current as int,
                token_type,
                message@,
            ).next,
            token_result(r) == consume(
                old(self).tokens@,
                old(self).current as int,
                token_type,
                message@,
            ).result,
    {
        if self.check(token_type) {
            let token = self.peek().clone();
            self.advance();
            Ok(token)
        } else {
            Err(ParsingError::UnexpectedTokenError(self.peek().clone(), message))
        }
    }

    /// Discards tokens up to the next statement boundary: after a
    /// semicolon, before a token that starts a statement, or the end.
    #[verifier::loop_isolation(false)]
    fn synchronize(&mut self)
        requires
            old(self).wf(),
        ensures
            final(self).wf(),
            final(self).tokens == old(self).tokens,
            final(self).current == synchronize(old(self).tokens@, old(self).current as int),
            final(self).current >= old(self).current,
            !over(old(self).tokens@, old(self).current as int) ==> final(self).current > old(
                self,
            ).current,
    {
        if self.is_over() {
            return ;
        }
        self.advance();
        loop
            invariant
                self.wf(),
                self.tokens == old(self).tokens,
                self.current > old(self).current,
                synchronize(old(self).tokens@, old(self).current as int) == boundary(
                    self.tokens@,
                    self.current as int,
                ),
            decreases self.tokens@.len() - self.current,
        {
            if self.is_over() {
                return ;
            }
            if self.previous().token_type == TokenType::Semicolon {
                return ;
            }
            match self.peek().token_type {
                TokenType::Class
                | TokenType::Fun
                | TokenType::Var
                | TokenType::For
                | TokenType::If
                | TokenType::While
                | TokenType::Print
                | TokenType::Return => {
                    return ;
                },
                _ => {},
            }
            self.advance();
        }
    }

    /// Parses a program: all its statements, or all its syntax errors.
    #[verifier::loop_isolation(false)]
    pub fn parse(&mut self) -> (r: Result<Vec<Stmt>, Vec<ParsingError>>)
        requires
            old(self).wf(),
            old(self).current == 0,
        ensures
            final(self).wf(),
            final(self).tokens == old(self).tokens,
            program_result(r) == program(old(self).tokens@),
            r matches Ok(stmts) ==> list_tidy(stmts),
    {
        let mut statements: Vec<Stmt> = Vec::new();
        let mut errors: Vec<ParsingError> = Vec::new();
        let ghost goal = program_from(self.tokens@, 0, Seq::empty(), Seq::empty());
        proof {
            assert(parsing_errors_view(errors@) =~= Seq::empty());
        }
        while !self.is_over()
            invariant
                self.wf(),
                self.tokens == old(self).tokens,
                list_tidy(statements),
                goal == program_from(
                    self.tokens@,
                    self.current as int,
                    stmt_views(statements, statements@.len()),
                    parsing_errors_view(errors@),
                ),
            decreases self.tokens@.len() - self.current,
        {
            let ghost errors_before = parsing_errors_view(errors@);
            match self.declaration() {
                Ok(stmt) => {
                    push_stmt(&mut statements, stmt);
                },
                Err(error) => {
                    errors.push(error);
                    proof {
                        assert(parsing_errors_view(errors@) =~= errors_before.push(error@));
                    }
                },
            }
        }
        if errors.len() == 0 {
            Ok(statements)
        } else {
            Err(errors)
        }
    }

    /// A declaration: a class, a variable, a function or a statement.
    /// After an error the cursor is moved to the next statement boundary.
    fn declaration(&mut self) -> (r: Result<Stmt, ParsingError>)
        requires
            old(self).wf(),
        ensures
            final(self).wf(),
            final(self).tokens == old(self).tokens,
            final(self).current == declaration(old(self).tokens@, old(self).current as int).next,
            stmt_result(r) == declaration(old(self).tokens@, old(self).current as int).result,
            r matches Ok(stmt) ==> all_tidy(stmt),
            final(self).current >= old(self).current,
            r is Ok || !over(old(self).tokens@, old(self).current as int) ==> final(self).current
                > old(self).current,
        decreases remaining(old(self).tokens@, old(self).current as int), 60nat,
    {
        let statement = if self.check(TokenType::Class) {
            self.advance();
            self.class_declaration()
        } else if self.check(TokenType::Var) {
            self.advance();
            self.var_declaration()
        } else if self.check(TokenType::Fun) {
            self.advance();
            match self.fun_declaration("function") {
                Ok(function) => Ok(Stmt::Func(Rc::new(function))),
                Err(error) => Err(error),
            }
        } else {
            self.statement()
        };
        match statement {
            Ok(stmt) => Ok(stmt),
            Err(error) => {
                self.synchronize();
                Err(error)
            },
        }
    }

    /// A class declaration, after the keyword.
    #[verifier::loop_isolation(false)]
    fn class_declaration(&mut self) -> (r: Result<Stmt, ParsingError>)
        requires
            old(self).wf(),
        ensures
            final(self).wf(),
            final(self).tokens == old(self).tokens,
            final(self).current == class_declaration(
                old(self).tokens@,
                old(self).current as int,
            ).next,
            stmt_result(r) == class_declaration(
                old(self).tokens@,
                old(self).current as int,
            ).result,
            r matches Ok(stmt) ==> all_tidy(stmt),
            final(self).current >= old(self).current,
        decreases remaining(old(self).tokens@, old(self).current as int) + 1, 56nat,
    {
        let name = self.consume(TokenType::Identifier, String::from_str("Expected class name"))?;
        let superclass = if self.check(TokenType::Less) {
            self.advance();
            let parent = self.consume(
                TokenType::Identifier,
                String::from_str("Expected superclass name"),
            )?;
            Some(Expr::Var(parent, None))
        } else {
            None
        };
        self.consume(TokenType::LeftBrace, String::from_str("Expected `{` before class body."))?;
        let mut methods: Vec<Stmt> = Vec::new();
        let ghost start = self.current;
        while !self.check(TokenType::RightBrace) && !self.is_over()
            invariant
                self.wf(),
                self.tokens == old(self).tokens,
                self.current >= start,
                start >= old(self).current + 2,
                list_tidy(methods),
                methods_rest(self.tokens@, start as int, Seq::empty()) == methods_rest(
                    self.tokens@,
                    self.current as int,
                    stmt_views(methods, methods@.len()),
                ),
            decreases remaining(self.tokens@, self.current as int),
        {
            let method = self.fun_declaration("method")?;
            push_stmt(&mut methods, Stmt::Func(Rc::new(method)));
        }
        self.consume(TokenType::RightBrace, String::from_str("Expected `}` after class body."))?;
        Ok(Stmt::Class(name, superclass, methods))
    }

    /// A variable declaration, after the keyword.
    fn var_declaration(&mut self) -> (r: Result<Stmt, ParsingError>)
        requires
            old(self).wf(),
        ensures
            final(self).wf(),
            final(self).tokens == old(self).tokens,
            final(self).current == var_declaration(
                old(self).tokens@,
                old(self).current as int,
            ).next,
            stmt_result(r) == var_declaration(old(self).tokens@, old(self).current as int).result,
            r matches Ok(stmt) ==> all_tidy(stmt),
            final(self).current >= old(self).current,
            r is Ok ==> final(self).current > old(self).current,
        decreases remaining(old(self).tokens@, old(self).current as int) + 1, 56nat,
    {
        let name = self.consume(
            TokenType::Identifier,
            String::from_str("Expected variable name"),
        )?;
        let initial_value = if self.check(TokenType::Equal) {
            self.advance();
            self.expression()?
        } else {
            Expr::Literal(Literal::Nil)
        };
        self.consume(
            TokenType::Semicolon,
            String::from_str("Expect ';' after variable declaration."),
        )?;
        Ok(Stmt::Var(name, initial_value))
    }

    /// The parameter list of a function, after the opening parenthesis.
    #[verifier::loop_isolation(false)]
    fn parameters(&mut self) -> (r: Result<Vec<Token>, ParsingError>)
        requires
            old(self).wf(),
        ensures
            final(self).wf(),
            final(self).tokens == old(self).tokens,
            final(self).current == parameters(old(self).tokens@, old(self).current as int).next,
            match r {
                Ok(list) => parameters(old(self).tokens@, old(self).current as int).result == Ok::<
                    Seq<Token>,
                    ParsingErrorView,
                >(list@),
                Err(error) => parameters(old(self).tokens@, old(self).current as int).result
                    == Err::<Seq<Token>, ParsingErrorView>(error@),
            },
            final(self).current >= old(self).current,
    {
        let mut parameters: Vec<Token> = Vec::new();
        if self.check(TokenType::RightParen) {
            return Ok(parameters);
        }
        let first = self.consume(
            TokenType::Identifier,
            String::from_str("Expected parameter name"),
        )?;
        parameters.push(first);
        let ghost start = self.current;
        let ghost begun = parameters@;
        while self.check(TokenType::Comma)
            invariant
                self.wf(),
                self.tokens == old(self).tokens,
                self.current >= start,
                start > old(self).current,
                parameters_rest(self.tokens@, start as int, begun) == parameters_rest(
                    self.tokens@,
                    self.current as int,
                    parameters@,
                ),
            decreases remaining(self.tokens@, self.current as int),
        {
            self.advance();
            if parameters.len() >= ARITY_LIMIT {
                return Err(ParsingError::TooManyParametersError);
            }
            let parameter = self.consume(
                TokenType::Identifier,
                String::from_str("Expected parameter name"),
            )?;
            parameters.push(parameter);
        }
        Ok(parameters)
    }

    /// A function or method declaration, from its name on. `kind` says in
    /// the error messages what is being declared.
    fn fun_declaration(&mut self, kind: &str) -> (r: Result<Function, ParsingError>)
        requires
            old(self).wf(),
        ensures
            final(self).wf(),
            final(self).tokens == old(self).tokens,
            final(self).current == fun_declaration(
                old(self).tokens@,
                old(self).current as int,
                kind@,
            ).next,
            function_result(r) == fun_declaration(
                old(self).tokens@,
                old(self).current as int,
                kind@,
            ).result,
            r matches Ok(function) ==> list_tidy(function.body),
            final(self).current >= old(self).current,
            r is Ok ==> final(self).current > old(self).current,
        decreases remaining(old(self).tokens@, old(self).current as int) + 1, 56nat,
    {
        let name = self.consume(TokenType::Identifier, message_of("Expected ", kind, " name."))?;
        self.consume(TokenType::LeftParen, message_of("Expected `(` after ", kind, " name."))?;
        let params = self.parameters()?;
        self.consume(TokenType::RightParen, String::from_str("Expect `)` after parameters."))?;
        self.consume(TokenType::LeftBrace, message_of("Expected `{` before ", kind, " body."))?;
        let body = self.block_body()?;
        Ok(Function { name, params, body })
    }

    /// A statement.
    fn statement(&mut self) -> (r: Result<Stmt, ParsingError>)
        requires
            old(self).wf(),
        ensures
            final(self).wf(),
            final(self).tokens == old(self).tokens,
            final(self).current == statement(old(self).tokens@, old(self).current as int).next,
            stmt_result(r) == statement(old(self).tokens@, old(self).current as int).result,
            r matches Ok(stmt) ==> all_tidy(stmt) && !declares(stmt),
            final(self).current >= old(self).current,
            r is Ok ==> final(self).current > old(self).current,
        decreases remaining(old(self).tokens@, old(self).current as int), 59nat,
    {
        if self.check(TokenType::Print) {
            self.advance();
            self.print_statement()
        } else if self.check(TokenType::LeftBrace) {
            self.advance();
            self.block_statement()
        } else if self.check(TokenType::If) {
            self.advance();
            self.if_statement()
        } else if self.check(TokenType::While) {
            self.advance();
            self.while_statement()
        } else if self.check(TokenType::For) {
            self.advance();
            self.for_statement()
        } else if self.check(TokenType::Return) {
            self.advance();
            self.return_statement()
        } else {
            self.expression_statement()
        }
    }

    /// An expression statement.
    fn expression_statement(&mut self) -> (r: Result<Stmt, ParsingError>)
        requires
            old(self).wf(),
        ensures
            final(self).wf(),
            final(self).tokens == old(self).tokens,
            final(self).current == expression_statement(
                old(self).tokens@,
                old(self).current as int,
            ).next,
            stmt_result(r) == expression_statement(
                old(self).tokens@,
                old(self).current as int,
            ).result,
            r matches Ok(stmt) ==> all_tidy(stmt) && !declares(stmt),
            final(self).current >= old(self).current,
            r is Ok ==> final(self).current > old(self).current,
        decreases remaining(old(self).tokens@, old(self).current as int), 56nat,
    {
        let expr = self.expression()?;
        match self.consume(TokenType::Semicolon, String::from_str("Expect ';' after expression."))
        {
            Ok(_) => Ok(Stmt::Expr(expr)),
            Err(error) => Err(error),
        }
    }

    /// The statements and the closing brace of a block, after the opening
    /// one.
    #[verifier::loop_isolation(false)]
    fn block_body(&mut self) -> (r: Result<Vec<Stmt>, ParsingError>)
        requires
            old(self).wf(),
        ensures
            final(self).wf(),
            final(self).tokens == old(self).tokens,
            final(self).current == block_body(old(self).tokens@, old(self).current as int).next,
            stmts_result(r) == block_body(old(self).tokens@, old(self).current as int).result,
            r matches Ok(stmts) ==> list_tidy(stmts),
            final(self).current >= old(self).current,
            r is Ok ==> final(self).current > old(self).current,
        decreases remaining(old(self).tokens@, old(self).current as int) + 1, 56nat,
    {
        let mut statements: Vec<Stmt> = Vec::new();
        while !self.check(TokenType::RightBrace) && !self.is_over()
            invariant
                self.wf(),
                self.tokens == old(self).tokens,
                self.current >= old(self).current,
                list_tidy(statements),
                block_rest(old(self).tokens@, old(self).current as int, Seq::empty())
                    == block_rest(
                    self.tokens@,
                    self.current as int,
                    stmt_views(statements, statements@.len()),
                ),
            decreases remaining(self.tokens@, self.current as int),
        {
            let stmt = self.declaration()?;
            push_stmt(&mut statements, stmt);
        }
        self.consume(TokenType::RightBrace, String::from_str("Expected `}` after block"))?;
        Ok(statements)
    }

    /// A block, after the opening brace.
    fn block_statement(&mut self) -> (r: Result<Stmt, ParsingError>)
        requires
            old(self).wf(),
        ensures
            final(self).wf(),
            final(self).tokens == old(self).tokens,
            final(self).current == block_statement(
                old(self).tokens@,
                old(self).current as int,
            ).next,
            stmt_result(r) == block_statement(old(self).tokens@, old(self).current as int).result,
            r matches Ok(stmt) ==> all_tidy(stmt) && !declares(stmt),
            final(self).current >= old(self).current,
            r is Ok ==> final(self).current > old(self).current,
        decreases remaining(old(self).tokens@, old(self).current as int) + 1, 57nat,
    {
        let statements = self.block_body()?;
        Ok(Stmt::Block(statements))
    }

    /// An `if` statement, after the keyword.
    fn if_statement(&mut self) -> (r: Result<Stmt, ParsingError>)
        requires
            old(self).wf(),
        ensures
            final(self).wf(),
            final(self).tokens == old(self).tokens,
            final(self).current == if_statement(old(self).tokens@, old(self).current as int).next,
            stmt_result(r) == if_statement(old(self).tokens@, old(self).current as int).result,
            r matches Ok(stmt) ==> all_tidy(stmt) && !declares(stmt),
            final(self).current >= old(self).current,
            r is Ok ==> final(self).current > old(self).current,
        decreases remaining(old(self).tokens@, old(self).current as int) + 1, 56nat,
    {
        self.consume(TokenType::LeftParen, String::from_str("Expected `(` after `if`"))?;
        let condition = self.expression()?;
        self.consume(TokenType::RightParen, String::from_str("Expected `)` after condition"))?;
        let then_branch = self.statement()?;
        let else_branch = if self.check(TokenType::Else) {
            self.advance();
            Some(self.statement()?)
        } else {
            None
        };
        Ok(Stmt::If(condition, Box::new(then_branch), Box::new(else_branch)))
    }

    /// A `while` statement, after the keyword.
    fn while_statement(&mut self) -> (r: Result<Stmt, ParsingError>)
        requires
            old(self).wf(),
        ensures
            final(self).wf(),
            final(self).tokens == old(self).tokens,
            final(self).current == while_statement(
                old(self).tokens@,
                old(self).current as int,
            ).next,
            stmt_result(r) == while_statement(old(self).tokens@, old(self).current as int).result,
            r matches Ok(stmt) ==> all_tidy(stmt) && !declares(stmt),
            final(self).current >= old(self).current,
            r is Ok ==> final(self).current > old(self).current,
        decreases remaining(old(self).tokens@, old(self).current as int) + 1, 56nat,
    {
        self.consume(TokenType::LeftParen, String::from_str("Expected `(` after `while`"))?;
        let condition = self.expression()?;
        self.consume(TokenType::RightParen, String::from_str("Expected `)` after condition"))?;
        let body = self.statement()?;
        Ok(Stmt::While(condition, Box::new(body)))
    }

    /// The first clause of a `for` statement.
    fn for_initializer(&mut self) -> (r: Result<Option<Stmt>, ParsingError>)
        requires
            old(self).wf(),
        ensures
            final(self).wf(),
            final(self).tokens == old(self).tokens,
            final(self).current == for_initializer(
                old(self).tokens@,
                old(self).current as int,
            ).next,
            match r {
                Ok(Some(stmt)) => for_initializer(
                    old(self).tokens@,
                    old(self).current as int,
                ).result == Ok::<Option<StmtView>, ParsingErrorView>(Some(stmt@)),
                Ok(None) => for_initializer(old(self).tokens@, old(self).current as int).result
                    == Ok::<Option<StmtView>, ParsingErrorView>(None),
                Err(error) => for_initializer(old(self).tokens@, old(self).current as int).result
                    == Err::<Option<StmtView>, ParsingErrorView>(error@),
            },
            r matches Ok(Some(stmt)) ==> all_tidy(stmt),
            final(self).current >= old(self).current,
        decreases remaining(old(self).tokens@, old(self).current as int) + 1, 57nat,
    {
        if self.check(TokenType::Semicolon) {
            self.advance();
            Ok(None)
        } else if self.check(TokenType::Var) {
            self.advance();
            Ok(Some(self.var_declaration()?))
        } else {
            Ok(Some(self.expression_statement()?))
        }
    }

    /// A clause of a `for` statement that may be empty, with the token
    /// that closes it.
    fn for_clause(&mut self, closing: TokenType, message: &str) -> (r: Result<
        Option<Expr>,
        ParsingError,
    >)
        requires
            old(self).wf(),
        ensures
            final(self).wf(),
            final(self).tokens == old(self).tokens,
            final(self).current == for_clause(
                old(self).tokens@,
                old(self).current as int,
                closing,
                message@,
            ).next,
            match r {
                Ok(Some(expr)) => for_clause(
                    old(self).tokens@,
                    old(self).current as int,
                    closing,
                    message@,
                ).result == Ok::<Option<ExprView>, ParsingErrorView>(Some(expr@)),
                Ok(None) => for_clause(
                    old(self).tokens@,
                    old(self).current as int,
                    closing,
                    message@,
                ).result == Ok::<Option<ExprView>, ParsingErrorView>(None),
                Err(error) => for_clause(
                    old(self).tokens@,
                    old(self).current as int,
                    closing,
                    message@,
                ).result == Err::<Option<ExprView>, ParsingErrorView>(error@),
            },
            final(self).current >= old(self).current,
        decreases remaining(old(self).tokens@, old(self).current as int) + 1, 57nat,
    {
        if self.check(closing) {
            self.advance();
            Ok(None)
        } else {
            let expr = self.expression()?;
            self.consume(closing, String::from_str(message))?;
            Ok(Some(expr))
        }
    }

    /// A `for` statement, after the keyword. It is rewritten as a `while`
    /// loop.
    fn for_statement(&mut self) -> (r: Result<Stmt, ParsingError>)
        requires
            old(self).wf(),
        ensures
            final(self).wf(),
            final(self).tokens == old(self).tokens,
            final(self).current == for_statement(old(self).tokens@, old(self).current as int).next,
            stmt_result(r) == for_statement(old(self).tokens@, old(self).current as int).result,
            r matches Ok(stmt) ==> all_tidy(stmt) && !declares(stmt),
            final(self).current >= old(self).current,
            r is Ok ==> final(self).current > old(self).current,
        decreases remaining(old(self).tokens@, old(self).current as int) + 1, 58nat,
    {
        self.consume(TokenType::LeftParen, String::from_str("Expected `(` after `for`"))?;
        let initializer = self.for_initializer()?;
        let condition = self.for_clause(TokenType::Semicolon, "Expect `;` after loop condition.")?;
        let increment = self.for_clause(TokenType::RightParen, "Expect `)` after for clause.")?;
        let body = self.statement()?;
        Ok(desugar(initializer, condition, increment, body))
    }

    /// A `return` statement, after the keyword.
    fn return_statement(&mut self) -> (r: Result<Stmt, ParsingError>)
        requires
            old(self).wf(),
            old(self).current > 0,
        ensures
            final(self).wf(),
            final(self).tokens == old(self).tokens,
            final(self).current == return_statement(
                old(self).tokens@,
                old(self).current as int,
            ).next,
            stmt_result(r) == return_statement(
                old(self).tokens@,
                old(self).current as int,
            ).result,
            r matches Ok(stmt) ==> all_tidy(stmt) && !declares(stmt),
            final(self).current >= old(self).current,
            r is Ok ==> final(self).current > old(self).current,
        decreases remaining(old(self).tokens@, old(self).current as int) + 1, 56nat,
    {
        let keyword = self.previous().clone();
        let value = if !self.check(TokenType::Semicolon) {
            self.expression()?
        } else {
            Expr::Literal(Literal::Nil)
        };
        self.consume(TokenType::Semicolon, String::from_str("Expect `;` after return value."))?;
        Ok(Stmt::Return(keyword, Box::new(value)))
    }

    /// A `print` statement, after the keyword.
    fn print_statement(&mut self) -> (r: Result<Stmt, ParsingError>)
        requires
            old(self).wf(),
        ensures
            final(self).wf(),
            final(self).tokens == old(self).tokens,
            final(self).current == print_statement(
                old(self).tokens@,
                old(self).current as int,
            ).next,
            stmt_result(r) == print_statement(old(self).tokens@, old(self).current as int).result,
            r matches Ok(stmt) ==> all_tidy(stmt) && !declares(stmt),
            final(self).current >= old(self).current,
            r is Ok ==> final(self).current > old(self).current,
        decreases remaining(old(self).tokens@, old(self).current as int) + 1, 56nat,
    {
        let expr = self.expression()?;
        match self.consume(TokenType::Semicolon, String::from_str("Expect ';' after expression."))
        {
            Ok(_) => Ok(Stmt::Print(expr)),
            Err(error) => Err(error),
        }
    }

    /// An expression.
    fn expression(&mut self) -> (r: Result<Expr, ParsingError>)
        requires
            old(self).wf(),
        ensures
            final(self).wf(),
            final(self).tokens == old(self).tokens,
            final(self).current == expression(old(self).tokens@, old(self).current as int).next,
            expr_result(r) == expression(old(self).tokens@, old(self).current as int).result,
            final(self).current >= old(self).current,
            r is Ok ==> final(self).current > old(self).current,
        decreases remaining(old(self).tokens@, old(self).current as int), 50nat,
    {
        self.assignment()
    }

    /// An assignment, or an expression of a higher precedence.
    fn assignment(&mut self) -> (r: Result<Expr, ParsingError>)
        requires
            old(self).wf(),
        ensures
            final(self).wf(),
            final(self).tokens == old(self).tokens,
            final(self).current == assignment(old(self).tokens@, old(self).current as int).next,
            expr_result(r) == assignment(old(self).tokens@, old(self).current as int).result,
            final(self).current >= old(self).current,
            r is Ok ==> final(self).current > old(self).current,
        decreases remaining(old(self).tokens@, old(self).current as int), 49nat,
    {
        let expr = self.or()?;
        if self.check(TokenType::Equal) {
            let token = self.peek().clone();
            self.advance();
            let value = self.assignment()?;
            return match expr {
                Expr::Var(name, _) => Ok(Expr::Assign(name, Box::new(value), None)),
                Expr::Get(target, name) => Ok(Expr::SetProperty(target, name, Box::new(value))),
                _ => Err(ParsingError::InvalidAssignmentError(token)),
            };
        }
        Ok(expr)
    }

    /// The operand of a binary operator of the given level: an expression
    /// of the next level.
    fn operand(&mut self, level: u8) -> (r: Result<Expr, ParsingError>)
        requires
            old(self).wf(),
            level < 6,
        ensures
            final(self).wf(),
            final(self).tokens == old(self).tokens,
            final(self).current == binary(
                old(self).tokens@,
                old(self).current as int,
                (level + 1) as nat,
            ).next,
            expr_result(r) == binary(
                old(self).tokens@,
                old(self).current as int,
                (level + 1) as nat,
            ).result,
            final(self).current >= old(self).current,
            r is Ok ==> final(self).current > old(self).current,
        decreases remaining(old(self).tokens@, old(self).current as int), (38 - 3 * level) as nat,
    {
        if level == 0 {
            self.and()
        } else if level == 1 {
            self.equality()
        } else if level == 2 {
            self.comparison()
        } else if level == 3 {
            self.addition()
        } else if level == 4 {
            self.multiplication()
        } else {
            self.unary()
        }
    }

    /// Whether the token at the cursor is a binary operator of the given
    /// level.
    fn operator_here(&self, level: u8) -> (r: bool)
        requires
            self.wf(),
        ensures
            r == operator_at(self.tokens@, self.current as int, level as nat),
    {
        if level == 0 {
            self.check(TokenType::Or)
        } else if level == 1 {
            self.check(TokenType::And)
        } else if level == 2 {
            self.check(TokenType::BangEqual) || self.check(TokenType::EqualEqual)
        } else if level == 3 {
            self.check(TokenType::Greater) || self.check(TokenType::GreaterEqual) || self.check(
                TokenType::Less,
            ) || self.check(TokenType::LessEqual)
        } else if level == 4 {
            self.check(TokenType::Minus) || self.check(TokenType::Plus)
        } else if level == 5 {
            self.check(TokenType::Slash) || self.check(TokenType::Star)
        } else {
            false
        }
    }

    /// One level of left-associative binary operators.
    #[verifier::loop_isolation(false)]
    fn binary(&mut self, level: u8) -> (r: Result<Expr, ParsingError>)
        requires
            old(self).wf(),
            level < 6,
        ensures
            final(self).wf(),
            final(self).tokens == old(self).tokens,
            final(self).current == binary(
                old(self).tokens@,
                old(self).current as int,
                level as nat,
            ).next,
            expr_result(r) == binary(
                old(self).tokens@,
                old(self).current as int,
                level as nat,
            ).result,
            final(self).current >= old(self).current,
            r is Ok ==> final(self).current > old(self).current,
        decreases remaining(old(self).tokens@, old(self).current as int), (39 - 3 * level) as nat,
    {
        let mut expr = self.operand(level)?;
        let ghost start = self.current;
        let ghost first = expr@;
        loop
            invariant
                self.wf(),
                level < 6,
                self.tokens == old(self).tokens,
                self.current >= start,
                start > old(self).current,
                binary_rest(self.tokens@, start as int, level as nat, first) == binary_rest(
                    self.tokens@,
                    self.current as int,
                    level as nat,
                    expr@,
                ),
            decreases remaining(self.tokens@, self.current as int),
        {
            if !self.operator_here(level) {
                return Ok(expr);
            }
            let operator = self.peek().clone();
            self.advance();
            let right = self.operand(level)?;
            expr = if level < 2 {
                Expr::Logical(Box::new(expr), operator, Box::new(right))
            } else {
                Expr::Binary(Box::new(expr), operator, Box::new(right))
            };
        }
    }

    /// `or`
    fn or(&mut self) -> (r: Result<Expr, ParsingError>)
        requires
            old(self).wf(),
        ensures
            final(self).wf(),
            final(self).tokens == old(self).tokens,
            final(self).current == binary(old(self).tokens@, old(self).current as int, 0).next,
            expr_result(r) == binary(old(self).tokens@, old(self).current as int, 0).result,
            final(self).current >= old(self).current,
            r is Ok ==> final(self).current > old(self).current,
        decreases remaining(old(self).tokens@, old(self).current as int), 40nat,
    {
        self.binary(0)
    }

    /// `and`
    fn and(&mut self) -> (r: Result<Expr, ParsingError>)
        requires
            old(self).wf(),
        ensures
            final(self).wf(),
            final(self).tokens == old(self).tokens,
            final(self).current == binary(old(self).tokens@, old(self).current as int, 1).next,
            expr_result(r) == binary(old(self).tokens@, old(self).current as int, 1).result,
            final(self).current >= old(self).current,
            r is Ok ==> final(self).current > old(self).current,
        decreases remaining(old(self).tokens@, old(self).current as int), 37nat,
    {
        self.binary(1)
    }

    /// `==` and `!=`
    fn equality(&mut self) -> (r: Result<Expr, ParsingError>)
        requires
            old(self).wf(),
        ensures
            final(self).wf(),
            final(self).tokens == old(self).tokens,
            final(self).current == binary(old(self).tokens@, old(self).current as int, 2).next,
            expr_result(r) == binary(old(self).tokens@, old(self).current as int, 2).result,
            final(self).current >= old(self).current,
            r is Ok ==> final(self).current > old(self).current,
        decreases remaining(old(self).tokens@, old(self).current as int), 34nat,
    {
        self.binary(2)
    }

    /// `<`, `<=`, `>` and `>=`
    fn comparison(&mut self) -> (r: Result<Expr, ParsingError>)
        requires
            old(self).wf(),
        ensures
            final(self).wf(),
            final(self).tokens == old(self).tokens,
            final(self).current == binary(old(self).tokens@, old(self).current as int, 3).next,
            expr_result(r) == binary(old(self).tokens@, old(self).current as int, 3).result,
            final(self).current >= old(self).current,
            r is Ok ==> final(self).current > old(self).current,
        decreases remaining(old(self).tokens@, old(self).current as int), 31nat,
    {
        self.binary(3)
    }

    /// `+` and `-`
    fn addition(&mut self) -> (r: Result<Expr, ParsingError>)
        requires
            old(self).wf(),
        ensures
            final(self).wf(),
            final(self).tokens == old(self).tokens,
            final(self).current == binary(old(self).tokens@, old(self).current as int, 4).next,
            expr_result(r) == binary(old(self).tokens@, old(self).current as int, 4).result,
            final(self).current >= old(self).current,
            r is Ok ==> final(self).current > old(self).current,
        decreases remaining(old(self).tokens@, old(self).current as int), 28nat,
    {
        self.binary(4)
    }

    /// `*` and `/`
    fn multiplication(&mut self) -> (r: Result<Expr, ParsingError>)
        requires
            old(self).wf(),
        ensures
            final(self).wf(),
            final(self).tokens == old(self).tokens,
            final(self).current == binary(old(self).tokens@, old(self).current as int, 5).next,
            expr_result(r) == binary(old(self).tokens@, old(self).current as int, 5).result,
            final(self).current >= old(self).current,
            r is Ok ==> final(self).current > old(self).current,
        decreases remaining(old(self).tokens@, old(self).current as int), 25nat,
    {
        self.binary(5)
    }

    /// A unary operator and its operand, or a call.
    fn unary(&mut self) -> (r: Result<Expr, ParsingError>)
        requires
            old(self).wf(),
        ensures
            final(self).wf(),
            final(self).tokens == old(self).tokens,
            final(self).current == unary(old(self).tokens@, old(self).current as int).next,
            expr_result(r) == unary(old(self).tokens@, old(self).current as int).result,
            final(self).current >= old(self).current,
            r is Ok ==> final(self).current > old(self).current,
        decreases remaining(old(self).tokens@, old(self).current as int), 15nat,
    {
        let operators = vec![TokenType::Bang, TokenType::Minus];
        proof {
            assert(operators@[0] == TokenType::Bang && operators@[1] == TokenType::Minus);
        }
        if self.next_is(operators) {
            let operator = self.previous().clone();
            let right = self.unary()?;
            return Ok(Expr::Unary(operator, Box::new(right)));
        }
        self.call()
    }

    /// A primary expression followed by any number of calls and property
    /// accesses.
    #[verifier::loop_isolation(false)]
    fn call(&mut self) -> (r: Result<Expr, ParsingError>)
        requires
            old(self).wf(),
        ensures
            final(self).wf(),
            final(self).tokens == old(self).tokens,
            final(self).current == call(old(self).tokens@, old(self).current as int).next,
            expr_result(r) == call(old(self).tokens@, old(self).current as int).result,
            final(self).current >= old(self).current,
            r is Ok ==> final(self).current > old(self).current,
        decreases remaining(old(self).tokens@, old(self).current as int), 14nat,
    {
        let mut expr = self.primary()?;
        let ghost start = self.current;
        let ghost first = expr@;
        loop
            invariant
                self.wf(),
                self.tokens == old(self).tokens,
                self.current >= start,
                start > old(self).current,
                call_rest(self.tokens@, start as int, first) == call_rest(
                    self.tokens@,
                    self.current as int,
                    expr@,
                ),
            decreases remaining(self.tokens@, self.current as int),
        {
            if self.check(TokenType::LeftParen) {
                self.advance();
                expr = self.finish_call(expr)?;
            } else if self.check(TokenType::Dot) {
                self.advance();
                let name = self.consume(
                    TokenType::Identifier,
                    String::from_str("Expected property name after `.`."),
                )?;
                expr = Expr::Get(Box::new(expr), name);
            } else {
                return Ok(expr);
            }
        }
    }

    /// The arguments and the closing parenthesis of a call, after the
    /// opening one.
    #[verifier::loop_isolation(false)]
    fn finish_call(&mut self, callee: Expr) -> (r: Result<Expr, ParsingError>)
        requires
            old(self).wf(),
        ensures
            final(self).wf(),
            final(self).tokens == old(self).tokens,
            final(self).current == finish_call(
                old(self).tokens@,
                old(self).current as int,
                callee@,
            ).next,
            expr_result(r) == finish_call(
                old(self).tokens@,
                old(self).current as int,
                callee@,
            ).result,
            final(self).current >= old(self).current,
        decreases remaining(old(self).tokens@, old(self).current as int) + 1, 12nat,
    {
        let mut arguments: Vec<Expr> = Vec::new();
        if !self.check(TokenType::RightParen) {
            let first = self.expression()?;
            push_expr(&mut arguments, first);
            let ghost start = self.current;
            let ghost begun = expr_views(arguments, arguments@.len());
            while self.check(TokenType::Comma)
                invariant
                    self.wf(),
                    self.tokens == old(self).tokens,
                    self.current >= start,
                    start > old(self).current,
                    arguments_rest(self.tokens@, start as int, begun) == arguments_rest(
                        self.tokens@,
                        self.current as int,
                        expr_views(arguments, arguments@.len()),
                    ),
                    expr_views(arguments, arguments@.len()).len() == arguments@.len(),
                decreases remaining(self.tokens@, self.current as int),
            {
                self.advance();
                if arguments.len() >= ARITY_LIMIT {
                    return Err(ParsingError::TooManyArgumentsError);
                }
                let argument = self.expression()?;
                push_expr(&mut arguments, argument);
            }
        }
        let paren = self.consume(
            TokenType::RightParen,
            String::from_str("Expect `)` after arguments."),
        )?;
        Ok(Expr::Call(Box::new(callee), arguments, paren))
    }

    /// A literal, a name, `this`, `super.method` or a parenthesized
    /// expression.
    fn primary(&mut self) -> (r: Result<Expr, ParsingError>)
        requires
            old(self).wf(),
        ensures
            final(self).wf(),
            final(self).tokens == old(self).tokens,
            final(self).current == primary(old(self).tokens@, old(self).current as int).next,
            expr_result(r) == primary(old(self).tokens@, old(self).current as int).result,
            final(self).current >= old(self).current,
            r is Ok ==> final(self).current > old(self).current,
        decreases remaining(old(self).tokens@, old(self).current as int), 10nat,
    {
        let literals = vec![
            TokenType::Number,
            TokenType::String,
            TokenType::False,
            TokenType::True,
            TokenType::Nil,
        ];
        proof {
            assert(literals@[0] == TokenType::Number && literals@[1] == TokenType::String
                && literals@[2] == TokenType::False && literals@[3] == TokenType::True
                && literals@[4] == TokenType::Nil);
        }
        if self.next_is(literals) {
            return match &self.previous().literal {
                Some(literal) => Ok(Expr::Literal(literal.clone())),
                None => Err(ParsingError::InternalError(String::from_str("Missing literal value"))),
            };
        }
        if self.check(TokenType::Identifier) {
            self.advance();
            return Ok(Expr::Var(self.previous().clone(), None));
        }
        if self.check(TokenType::This) {
            self.advance();
            return Ok(Expr::This(self.previous().clone(), None));
        }
        if self.check(TokenType::Super) {
            let keyword = self.peek().clone();
            self.advance();
            self.consume(TokenType::Dot, String::from_str("Expect '.' after 'super'."))?;
            let method = self.consume(
                TokenType::Identifier,
                String::from_str("Expect superclass method name."),
            )?;
            return Ok(Expr::Super(keyword, method, None));
        }
        if self.check(TokenType::LeftParen) {
            self.advance();
            let expr = self.expression()?;
            return match self.consume(
                TokenType::RightParen,
                String::from_str("Expected ')' after expression."),
            ) {
                Ok(_) => Ok(Expr::Grouping(Box::new(expr))),
                Err(error) => Err(error),
            };
        }
        if self.is_over() {
            Err(ParsingError::UnexpectedEofError)
        } else {
            Err(
                ParsingError::UnexpectedTokenError(
                    self.peek().clone(),
                    String::from_str("Unexpected token"),
                ),
            )
        }
    }
}

} // verus!
