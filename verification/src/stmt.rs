//! Statements of the syntax tree.

use vstd::prelude::*;
use std::rc::Rc;
use crate::expr::{Expr, ExprView};
use crate::token::Token;

verus! {

/// A function or method declaration: its name, its parameters and the
/// statements of its body.
#[derive(Debug)]
pub struct Function {
    pub name: Token,
    pub params: Vec<Token>,
    pub body: Vec<Stmt>,
}

/// A statement.
#[derive(Debug)]
pub enum Stmt {
    /// `print expression ;`
    Print(Expr),
    /// `expression ;`
    Expr(Expr),
    /// `var name = initializer ;`
    Var(Token, Expr),
    /// `{ statements }`
    Block(Vec<Stmt>),
    /// `if ( condition ) then else otherwise`
    If(Expr, Box<Stmt>, Box<Option<Stmt>>),
    /// `while ( condition ) body`
    While(Expr, Box<Stmt>),
    /// `fun name ( params ) { body }`. The declaration is shared with the
    /// function values that the interpreter makes from it.
    Func(Rc<Function>),
    /// `return value ;`, with the keyword.
    Return(Token, Box<Expr>),
    /// `class name < superclass { methods }`. Every method is a `Func`.
    Class(Token, Option<Expr>, Vec<Stmt>),
}

/// A function declaration as a mathematical value.
pub struct FunctionView {
    pub name: Token,
    pub params: Seq<Token>,
    pub body: Seq<StmtView>,
}

/// A statement as a mathematical value: the same tree, with a sequence in
/// place of each list.
pub enum StmtView {
    Print(ExprView),
    Expr(ExprView),
    Var(Token, ExprView),
    Block(Seq<StmtView>),
    If(ExprView, Box<StmtView>, Option<Box<StmtView>>),
    While(ExprView, Box<StmtView>),
    Func(Box<FunctionView>),
    Return(Token, ExprView),
    Class(Token, Option<ExprView>, Seq<StmtView>),
}

/// The view of a statement.
pub open spec fn stmt_view(stmt: Stmt) -> StmtView
    decreases stmt, 0nat,
{
    match stmt {
        Stmt::Print(expr) => StmtView::Print(expr@),
        Stmt::Expr(expr) => StmtView::Expr(expr@),
        Stmt::Var(name, initializer) => StmtView::Var(name, initializer@),
        Stmt::Block(statements) => StmtView::Block(stmt_views(statements, statements@.len())),
        Stmt::If(condition, then_branch, else_branch) => StmtView::If(
            condition@,
            Box::new(stmt_view(*then_branch)),
            match *else_branch {
                Some(otherwise) => Some(Box::new(stmt_view(otherwise))),
                None => None,
            },
        ),
        Stmt::While(condition, body) => StmtView::While(condition@, Box::new(stmt_view(*body))),
        Stmt::Func(declaration) => StmtView::Func(Box::new(function_view(*declaration))),
        Stmt::Return(keyword, value) => StmtView::Return(keyword, (*value)@),
        Stmt::Class(name, superclass, methods) => StmtView::Class(
            name,
            match superclass {
                Some(parent) => Some(parent@),
                None => None,
            },
            stmt_views(methods, methods@.len()),
        ),
    }
}

/// The view of a function declaration.
pub open spec fn function_view(function: Function) -> FunctionView
    decreases function, 0nat,
{
    FunctionView {
        name: function.name,
        params: function.params@,
        body: stmt_views(function.body, function.body@.len()),
    }
}

/// The views of the first `upto` of a list of statements.
pub open spec fn stmt_views(stmts: Vec<Stmt>, upto: nat) -> Seq<StmtView>
    decreases stmts, upto,
{
    if upto == 0 || upto > stmts@.len() {
        Seq::empty()
    } else {
        stmt_views(stmts, (upto - 1) as nat).push(stmt_view(stmts@[upto - 1]))
    }
}

impl View for Stmt {
    type V = StmtView;

    open spec fn view(&self) -> StmtView {
        stmt_view(*self)
    }
}

impl View for Function {
    type V = FunctionView;

    open spec fn view(&self) -> FunctionView {
        function_view(*self)
    }
}

/// Whether a statement is a declaration: of a variable, a function or a
/// class.
pub open spec fn declares(stmt: Stmt) -> bool {
    stmt is Var || stmt is Func || stmt is Class
}

/// Whether no declaration stands as the branch of an `if` or the body of a
/// `while` in a statement, blocks and function bodies apart. The grammar
/// admits none there: a declaration in such a place must stand in a block.
pub open spec fn tidy(stmt: Stmt) -> bool
    decreases stmt,
{
    match stmt {
        Stmt::If(_, then_branch, else_branch) => !declares(*then_branch) && tidy(*then_branch)
            && match *else_branch {
            Some(otherwise) => !declares(otherwise) && tidy(otherwise),
            None => true,
        },
        Stmt::While(_, body) => !declares(*body) && tidy(*body),
        _ => true,
    }
}

/// Whether no declaration stands as the branch of an `if` or the body of a
/// `while` anywhere in a statement, blocks, function bodies and classes
/// included.
pub open spec fn all_tidy(stmt: Stmt) -> bool
    decreases stmt, 0nat,
{
    match stmt {
        Stmt::Block(statements) => list_tidy(statements),
        Stmt::If(_, then_branch, else_branch) => !declares(*then_branch) && all_tidy(
            *then_branch,
        ) && match *else_branch {
            Some(otherwise) => !declares(otherwise) && all_tidy(otherwise),
            None => true,
        },
        Stmt::While(_, body) => !declares(*body) && all_tidy(*body),
        Stmt::Func(declaration) => list_tidy(declaration.body),
        Stmt::Class(_, _, methods) => list_tidy(methods),
        _ => true,
    }
}

/// Whether every statement of a list is tidy throughout.
pub open spec fn list_tidy(stmts: Vec<Stmt>) -> bool
    decreases stmts, 1nat,
{
    forall|i: int| 0 <= i < stmts@.len() ==> all_tidy(#[trigger] stmts@[i])
}

/// A statement that is tidy throughout is tidy.
pub proof fn lemma_all_tidy_is_tidy(stmt: Stmt)
    requires
        all_tidy(stmt),
    ensures
        tidy(stmt),
    decreases stmt,
{
    match stmt {
        Stmt::If(_, then_branch, else_branch) => {
            lemma_all_tidy_is_tidy(*then_branch);
            match *else_branch {
                Some(otherwise) => {
                    lemma_all_tidy_is_tidy(otherwise);
                },
                None => {},
            }
        },
        Stmt::While(_, body) => {
            lemma_all_tidy_is_tidy(*body);
        },
        _ => {},
    }
}

} // verus!
