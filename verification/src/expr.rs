//! Expressions of the syntax tree.

use vstd::prelude::*;
use vstd::string::StringExecFns;
use crate::token::{Literal, Token};

verus! {

/// An expression. The `Option<usize>` of `Var`, `Assign`, `This` and `Super`
/// is the resolved distance: `None` as the parser leaves it and for names
/// that live in the global table, `Some(d)` for a binding found `d` scopes
/// out from the scope of the reference.
#[derive(Debug)]
pub enum Expr {
    /// `left operator right`
    Binary(Box<Expr>, Token, Box<Expr>),
    /// `( expression )`
    Grouping(Box<Expr>),
    /// A number, string, boolean or `nil`.
    Literal(Literal),
    /// `operator operand`
    Unary(Token, Box<Expr>),
    /// A variable read.
    Var(Token, Option<usize>),
    /// `name = value`
    Assign(Token, Box<Expr>, Option<usize>),
    /// `left and right`, `left or right`
    Logical(Box<Expr>, Token, Box<Expr>),
    /// `callee ( arguments )`, with the closing parenthesis.
    Call(Box<Expr>, Vec<Expr>, Token),
    /// `target . name`
    Get(Box<Expr>, Token),
    /// `target . name = value`
    SetProperty(Box<Expr>, Token, Box<Expr>),
    /// `this`
    This(Token, Option<usize>),
    /// `super . method`: the keyword, then the method's name.
    Super(Token, Token, Option<usize>),
}

/// An expression as a mathematical value: the same tree, with a sequence
/// in place of each list.
pub enum ExprView {
    Binary(Box<ExprView>, Token, Box<ExprView>),
    Grouping(Box<ExprView>),
    Literal(Literal),
    Unary(Token, Box<ExprView>),
    Var(Token, Option<usize>),
    Assign(Token, Box<ExprView>, Option<usize>),
    Logical(Box<ExprView>, Token, Box<ExprView>),
    Call(Box<ExprView>, Seq<ExprView>, Token),
    Get(Box<ExprView>, Token),
    SetProperty(Box<ExprView>, Token, Box<ExprView>),
    This(Token, Option<usize>),
    Super(Token, Token, Option<usize>),
}

/// The view of an expression.
pub open spec fn expr_view(expr: Expr) -> ExprView
    decreases expr, 0nat,
{
    match expr {
        Expr::Binary(left, operator, right) => ExprView::Binary(
            Box::new(expr_view(*left)),
            operator,
            Box::new(expr_view(*right)),
        ),
        Expr::Grouping(inner) => ExprView::Grouping(Box::new(expr_view(*inner))),
        Expr::Literal(literal) => ExprView::Literal(literal),
        Expr::Unary(operator, operand) => ExprView::Unary(
            operator,
            Box::new(expr_view(*operand)),
        ),
        Expr::Var(name, distance) => ExprView::Var(name, distance),
        Expr::Assign(name, value, distance) => ExprView::Assign(
            name,
            Box::new(expr_view(*value)),
            distance,
        ),
        Expr::Logical(left, operator, right) => ExprView::Logical(
            Box::new(expr_view(*left)),
            operator,
            Box::new(expr_view(*right)),
        ),
        Expr::Call(callee, arguments, paren) => ExprView::Call(
            Box::new(expr_view(*callee)),
            expr_views(arguments, arguments@.len()),
            paren,
        ),
        Expr::Get(target, name) => ExprView::Get(Box::new(expr_view(*target)), name),
        Expr::SetProperty(target, name, value) => ExprView::SetProperty(
            Box::new(expr_view(*target)),
            name,
            Box::new(expr_view(*value)),
        ),
        Expr::This(keyword, distance) => ExprView::This(keyword, distance),
        Expr::Super(keyword, method, distance) => ExprView::Super(keyword, method, distance),
    }
}

/// The views of the first `upto` of a list of expressions.
pub open spec fn expr_views(exprs: Vec<Expr>, upto: nat) -> Seq<ExprView>
    decreases exprs, upto,
{
    if upto == 0 || upto > exprs@.len() {
        Seq::empty()
    } else {
        expr_views(exprs, (upto - 1) as nat).push(expr_view(exprs@[upto - 1]))
    }
}

impl View for Expr {
    type V = ExprView;

    open spec fn view(&self) -> ExprView {
        expr_view(*self)
    }
}

/// A node of the prefix notation: `(head first second)`.
pub open spec fn node2(head: Seq<char>, first: Seq<char>, second: Seq<char>) -> Seq<char> {
    "("@ + head + " "@ + first + " "@ + second + ")"@
}

/// A node of the prefix notation: `(head first)`.
pub open spec fn node1(head: Seq<char>, first: Seq<char>) -> Seq<char> {
    "("@ + head + " "@ + first + ")"@
}

/// An expression in prefix notation, fully parenthesized.
pub open spec fn expr_text(expr: Expr) -> Seq<char>
    decreases expr, 0nat,
{
    match expr {
        Expr::Binary(left, operator, right) => node2(
            operator.lexeme@,
            expr_text(*left),
            expr_text(*right),
        ),
        Expr::Grouping(inner) => node1("group"@, expr_text(*inner)),
        Expr::Literal(literal) => literal.text(),
        Expr::Unary(operator, operand) => node1(operator.lexeme@, expr_text(*operand)),
        Expr::Var(name, _) => node1("var"@, name.lexeme@),
        Expr::Assign(name, value, _) => node2("assign"@, name.lexeme@, expr_text(*value)),
        Expr::Logical(left, operator, right) => node2(
            operator.lexeme@,
            expr_text(*left),
            expr_text(*right),
        ),
        Expr::Call(callee, arguments, _) => node2(
            "call"@,
            expr_text(*callee),
            "["@ + expr_texts(arguments, arguments@.len()) + "]"@,
        ),
        Expr::Get(target, name) => node2("get"@, expr_text(*target), name.lexeme@),
        Expr::SetProperty(target, name, value) => node2(
            "set"@,
            expr_text(*target),
            name.lexeme@ + " "@ + expr_text(*value),
        ),
        Expr::This(_, _) => "this"@,
        Expr::Super(_, method, _) => node1("super"@, method.lexeme@),
    }
}

/// The first `upto` of a list of expressions in prefix notation, separated
/// by commas.
pub open spec fn expr_texts(exprs: Vec<Expr>, upto: nat) -> Seq<char>
    decreases exprs, upto,
{
    if upto == 0 || upto > exprs@.len() {
        Seq::empty()
    } else if upto == 1 {
        expr_text(exprs@[0])
    } else {
        expr_texts(exprs, (upto - 1) as nat) + ", "@ + expr_text(exprs@[upto - 1])
    }
}

/// `(head first second)`
fn node2_string(head: &str, first: &str, second: &str) -> (r: String)
    ensures
        r@ == node2(head@, first@, second@),
{
    let mut out = String::from_str("(");
    out.append(head);
    out.append(" ");
    out.append(first);
    out.append(" ");
    out.append(second);
    out.append(")");
    out
}

/// `(head first)`
fn node1_string(head: &str, first: &str) -> (r: String)
    ensures
        r@ == node1(head@, first@),
{
    let mut out = String::from_str("(");
    out.append(head);
    out.append(" ");
    out.append(first);
    out.append(")");
    out
}

impl Expr {
    /// The expression in prefix notation, fully parenthesized: a reading
    /// aid that shows how the parser grouped the operands.
    #[verifier::loop_isolation(false)]
    pub fn to_string(&self) -> (r: String)
        ensures
            r@ == expr_text(*self),
        decreases self,
    {
        match self {
            Expr::Binary(left, operator, right) => node2_string(
                operator.lexeme.as_str(),
                left.to_string().as_str(),
                right.to_string().as_str(),
            ),
            Expr::Grouping(inner) => node1_string("group", inner.to_string().as_str()),
            Expr::Literal(literal) => literal.to_string(),
            Expr::Unary(operator, operand) => node1_string(
                operator.lexeme.as_str(),
                operand.to_string().as_str(),
            ),
            Expr::Var(name, _) => node1_string("var", name.lexeme.as_str()),
            Expr::Assign(name, value, _) => node2_string(
                "assign",
                name.lexeme.as_str(),
                value.to_string().as_str(),
            ),
            Expr::Logical(left, operator, right) => node2_string(
                operator.lexeme.as_str(),
                left.to_string().as_str(),
                right.to_string().as_str(),
            ),
            Expr::Call(callee, arguments, _) => {
                let mut list = String::from_str("[");
                let ghost opened = list@;
                let mut i: usize = 0;
                proof {
                    assert(list@ =~= opened + expr_texts(*arguments, 0));
                }
                while i < arguments.len()
                    invariant
                        i <= arguments@.len(),
                        list@ == opened + expr_texts(*arguments, i as nat),
                    decreases arguments@.len() - i,
                {
                    if i > 0 {
                        list.append(", ");
                    }
                    list.append(arguments[i].to_string().as_str());
                    i += 1;
                    proof {
                        assert(list@ =~= opened + expr_texts(*arguments, i as nat));
                    }
                }
                list.append("]");
                node2_string("call", callee.to_string().as_str(), list.as_str())
            },
            Expr::Get(target, name) => node2_string(
                "get",
                target.to_string().as_str(),
                name.lexeme.as_str(),
            ),
            Expr::SetProperty(target, name, value) => {
                let mut rest = name.lexeme.clone();
                rest.append(" ");
                rest.append(value.to_string().as_str());
                node2_string("set", target.to_string().as_str(), rest.as_str())
            },
            Expr::This(_, _) => String::from_str("this"),
            Expr::Super(_, method, _) => node1_string("super", method.lexeme.as_str()),
        }
    }
}

} // verus!
