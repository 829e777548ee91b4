//! The resolver: one walk over the syntax tree, before the program runs,
//! that stores on every variable reference, assignment, `this` and `super`
//! how many scopes lie between the reference and the scope that declares
//! the name, and that rejects a misplaced `return`, `this` or `super`.
//!
//! A misuse ends the walk at once: it is returned as an error, which the
//! run reports as its one error, and nothing is interpreted.
//!
//! The scopes it pushes are those whose environments the interpreter makes
//! at run time: one per block, one per function call for the parameters
//! and the body, one per class with a superclass for `super`, and one per
//! bound method for `this`.

use vstd::prelude::*;
use vstd::string::StringExecFns;
use std::rc::Rc;
use crate::errors::{Fault, RuntimeError};
use crate::expr::Expr;
use crate::stmt::{all_tidy, declares, list_tidy, Function, Stmt};
use crate::table::Table;
use crate::text::same_text;
use crate::token::Token;

verus! {

/// Whether the class being resolved has a superclass.
#[derive(Debug, Clone, Copy, PartialEq, Eq, Structural)]
pub enum ClassType {
    Class,
    SubClass,
}

/// What kind of function is being resolved.
#[derive(Debug, Clone, Copy, PartialEq, Eq, Structural)]
pub enum FunctionType {
    Function,
    Method,
    Initializer,
}

/// The scopes of a resolver as a mathematical value: outermost first, each
/// a map from a name to whether its definition is complete.
pub type Scopes = Seq<Map<Seq<char>, bool>>;

/// The resolver: the stack of scopes, outermost first, and the kinds of
/// the class and the function that enclose the place it has reached.
#[derive(Debug)]
pub struct Resolver {
    pub scopes: Vec<Table<bool>>,
    pub class_type: Option<ClassType>,
    pub function_type: Option<FunctionType>,
}

/// How many scopes out from the innermost the nearest scope lies that
/// holds `name`; `None` where no scope holds it.
pub open spec fn local_distance(scopes: Scopes, name: Seq<char>) -> Option<usize>
    decreases scopes.len(),
{
    if scopes.len() == 0 {
        None
    } else if scopes.last().contains_key(name) {
        Some(0)
    } else {
        match local_distance(scopes.drop_last(), name) {
            Some(distance) => Some((distance + 1) as usize),
            None => None,
        }
    }
}

/// The scopes after `name` is entered in the innermost one with the given
/// flag; unchanged where there is no scope.
pub open spec fn entered(scopes: Scopes, name: Seq<char>, complete: bool) -> Scopes {
    if scopes.len() == 0 {
        scopes
    } else {
        scopes.update(scopes.len() - 1, scopes.last().insert(name, complete))
    }
}

/// The scope of a function's parameters.
pub open spec fn parameter_scope(params: Seq<Token>, upto: nat) -> Map<Seq<char>, bool>
    decreases upto,
{
    if upto == 0 {
        Map::empty()
    } else {
        parameter_scope(params, (upto - 1) as nat).insert(params[upto - 1].lexeme@, true)
    }
}

/// The scopes in which the methods of a class are resolved: the class's
/// name is declared, then come a scope for `super` where the class has a
/// superclass, and a scope for `this`.
pub open spec fn class_scopes(scopes: Scopes, name: Seq<char>, subclass: bool) -> Scopes {
    let declared = entered(scopes, name, false);
    let with_super = if subclass {
        declared.push(Map::<Seq<char>, bool>::empty().insert("super"@, true))
    } else {
        declared
    };
    with_super.push(Map::<Seq<char>, bool>::empty().insert("this"@, true))
}

/// The scopes after a statement has been resolved: a declaration enters
/// its name in the innermost scope.
pub open spec fn scopes_after(stmt: Stmt, scopes: Scopes) -> Scopes
    decreases stmt,
{
    match stmt {
        Stmt::Var(name, _) => entered(scopes, name.lexeme@, true),
        Stmt::Func(declaration) => entered(scopes, declaration.name.lexeme@, true),
        Stmt::Class(name, _, _) => entered(scopes, name.lexeme@, true),
        Stmt::If(_, then_branch, else_branch) => match *else_branch {
            Some(otherwise) => scopes_after(otherwise, scopes_after(*then_branch, scopes)),
            None => scopes_after(*then_branch, scopes),
        },
        Stmt::While(_, body) => scopes_after(*body, scopes),
        _ => scopes,
    }
}

/// Whether `after` is `before` with every resolved distance filled in as
/// the scopes give it: the same tree in every other respect.
pub open spec fn expr_resolved(before: Expr, after: Expr, scopes: Scopes) -> bool
    decreases before,
{
    match before {
        Expr::Literal(_) => after == before,
        Expr::Grouping(inner) => after matches Expr::Grouping(inner2) && expr_resolved(
            *inner,
            *inner2,
            scopes,
        ),
        Expr::Unary(operator, operand) => after matches Expr::Unary(operator2, operand2)
            && operator2 == operator && expr_resolved(*operand, *operand2, scopes),
        Expr::Binary(left, operator, right) => after matches Expr::Binary(left2, operator2, right2)
            && operator2 == operator && expr_resolved(*left, *left2, scopes) && expr_resolved(
            *right,
            *right2,
            scopes,
        ),
        Expr::Logical(left, operator, right) => after matches Expr::Logical(
            left2,
            operator2,
            right2,
        ) && operator2 == operator && expr_resolved(*left, *left2, scopes) && expr_resolved(
            *right,
            *right2,
            scopes,
        ),
        Expr::Var(name, _) => after == Expr::Var(name, local_distance(scopes, name.lexeme@)),
        Expr::Assign(name, value, _) => after matches Expr::Assign(name2, value2, distance)
            && name2 == name && distance == local_distance(scopes, name.lexeme@) && expr_resolved(
            *value,
            *value2,
            scopes,
        ),
        Expr::Call(callee, arguments, paren) => after matches Expr::Call(
            callee2,
            arguments2,
            paren2,
        ) && paren2 == paren && expr_resolved(*callee, *callee2, scopes) && arguments2@.len()
            == arguments@.len() && forall|i: int|
            0 <= i < arguments@.len() ==> expr_resolved(
                #[trigger] arguments@[i],
                arguments2@[i],
                scopes,
            ),
        Expr::Get(target, name) => after matches Expr::Get(target2, name2) && name2 == name
            && expr_resolved(*target, *target2, scopes),
        Expr::SetProperty(target, name, value) => after matches Expr::SetProperty(
            target2,
            name2,
            value2,
        ) && name2 == name && expr_resolved(*target, *target2, scopes) && expr_resolved(
            *value,
            *value2,
            scopes,
        ),
        Expr::This(keyword, _) => after == Expr::This(
            keyword,
            local_distance(scopes, keyword.lexeme@),
        ),
        Expr::Super(keyword, method, _) => after == Expr::Super(
            keyword,
            method,
            local_distance(scopes, keyword.lexeme@),
        ),
    }
}

/// Whether `after` is the function `before` with its body resolved in the
/// scopes given plus the scope of its parameters.
pub open spec fn function_resolved(before: Function, after: Function, scopes: Scopes) -> bool
    decreases before, 0nat,
{
    &&& after.name == before.name
    &&& after.params@ == before.params@
    &&& stmts_resolved(
        before.body,
        after.body,
        scopes.push(parameter_scope(before.params@, before.params@.len())),
    )
}

/// The scopes in which the statement `stmts[upto]` is resolved: those that
/// the statements before it leave.
pub open spec fn scopes_before(stmts: Vec<Stmt>, upto: nat, scopes: Scopes) -> Scopes
    decreases upto,
{
    if upto == 0 || upto > stmts@.len() {
        scopes
    } else {
        scopes_after(stmts@[upto - 1], scopes_before(stmts, (upto - 1) as nat, scopes))
    }
}

/// Whether `after` is the list of statements `before` with each statement
/// resolved in the scopes that its predecessors leave.
pub open spec fn stmts_resolved(before: Vec<Stmt>, after: Vec<Stmt>, scopes: Scopes) -> bool
    decreases before, 1nat,
{
    &&& after@.len() == before@.len()
    &&& forall|i: int|
        0 <= i < before@.len() ==> stmt_resolved(
            #[trigger] before@[i],
            after@[i],
            scopes_before(before, i as nat, scopes),
        )
}

/// Whether `after` is the statement `before` with every resolved distance
/// filled in as the scopes give it.
pub open spec fn stmt_resolved(before: Stmt, after: Stmt, scopes: Scopes) -> bool
    decreases before, 0nat,
{
    match before {
        Stmt::Print(expr) => after matches Stmt::Print(expr2) && expr_resolved(
            expr,
            expr2,
            scopes,
        ),
        Stmt::Expr(expr) => after matches Stmt::Expr(expr2) && expr_resolved(expr, expr2, scopes),
        Stmt::Var(name, initializer) => after matches Stmt::Var(name2, initializer2) && name2
            == name && expr_resolved(
            initializer,
            initializer2,
            entered(scopes, name.lexeme@, false),
        ),
        Stmt::Block(statements) => after matches Stmt::Block(statements2) && stmts_resolved(
            statements,
            statements2,
            scopes.push(Map::empty()),
        ),
        Stmt::If(condition, then_branch, else_branch) => after matches Stmt::If(
            condition2,
            then_branch2,
            else_branch2,
        ) && expr_resolved(condition, condition2, scopes) && stmt_resolved(
            *then_branch,
            *then_branch2,
            scopes,
        ) && match *else_branch {
            Some(otherwise) => *else_branch2 matches Some(otherwise2) && stmt_resolved(
                otherwise,
                otherwise2,
                scopes_after(*then_branch, scopes),
            ),
            None => *else_branch2 is None,
        },
        Stmt::While(condition, body) => after matches Stmt::While(condition2, body2)
            && expr_resolved(condition, condition2, scopes) && stmt_resolved(
            *body,
            *body2,
            scopes,
        ),
        Stmt::Func(declaration) => after matches Stmt::Func(declaration2) && function_resolved(
            *declaration,
            *declaration2,
            entered(scopes, declaration.name.lexeme@, true),
        ),
        Stmt::Return(keyword, value) => after matches Stmt::Return(keyword2, value2) && keyword2
            == keyword && expr_resolved(*value, *value2, scopes),
        Stmt::Class(name, superclass, methods) => after matches Stmt::Class(
            name2,
            superclass2,
            methods2,
        ) && name2 == name && match superclass {
            Some(parent) => superclass2 matches Some(parent2) && expr_resolved(
                parent,
                parent2,
                entered(scopes, name.lexeme@, false),
            ),
            None => superclass2 is None,
        } && stmts_resolved(
            methods,
            methods2,
            class_scopes(scopes, name.lexeme@, superclass is Some),
        ),
    }
}

/// The first of two faults.
pub open spec fn first(a: Option<RuntimeError>, b: Option<RuntimeError>) -> Option<RuntimeError> {
    match a {
        Some(_) => a,
        None => b,
    }
}

/// The first misuse in an expression, in the order of the walk: `this`
/// outside of any class, `super` outside of any class or in a class
/// without a superclass.
pub open spec fn expr_fault(expr: Expr, class_type: Option<ClassType>) -> Option<RuntimeError>
    decreases expr, 0nat,
{
    match expr {
        Expr::Literal(_) => None,
        Expr::Grouping(inner) => expr_fault(*inner, class_type),
        Expr::Unary(_, operand) => expr_fault(*operand, class_type),
        Expr::Binary(left, _, right) => first(
            expr_fault(*left, class_type),
            expr_fault(*right, class_type),
        ),
        Expr::Logical(left, _, right) => first(
            expr_fault(*left, class_type),
            expr_fault(*right, class_type),
        ),
        Expr::Var(_, _) => None,
        Expr::Assign(_, value, _) => expr_fault(*value, class_type),
        Expr::Call(callee, arguments, _) => first(
            expr_fault(*callee, class_type),
            exprs_fault(arguments, 0, class_type),
        ),
        Expr::Get(target, _) => expr_fault(*target, class_type),
        Expr::SetProperty(target, _, value) => first(
            expr_fault(*target, class_type),
            expr_fault(*value, class_type),
        ),
        Expr::This(keyword, _) => match class_type {
            None => Some(RuntimeError::ThisOutsideMethod(keyword)),
            Some(_) => None,
        },
        Expr::Super(keyword, _, _) => match class_type {
            None => Some(RuntimeError::SuperOutsideMethod(keyword)),
            Some(ClassType::Class) => Some(RuntimeError::SuperWithoutSuperclass(keyword)),
            Some(ClassType::SubClass) => None,
        },
    }
}

/// The first misuse among the expressions `exprs[from..]`.
pub open spec fn exprs_fault(exprs: Vec<Expr>, from: nat, class_type: Option<ClassType>)
    -> Option<RuntimeError>
    decreases exprs, exprs@.len() - from,
{
    if from >= exprs@.len() {
        None
    } else {
        first(
            expr_fault(exprs@[from as int], class_type),
            exprs_fault(exprs, from + 1, class_type),
        )
    }
}

/// The kind of function that a method of the given name is.
pub open spec fn method_type(name: Seq<char>) -> FunctionType {
    if name == "init"@ {
        FunctionType::Initializer
    } else {
        FunctionType::Method
    }
}

/// The first misuse in a statement, in the order of the walk: those of its
/// expressions, a `return` outside of any function or inside an
/// initializer, and something other than a function among the methods of
/// a class.
pub open spec fn stmt_fault(
    stmt: Stmt,
    class_type: Option<ClassType>,
    function_type: Option<FunctionType>,
) -> Option<RuntimeError>
    decreases stmt, 0nat,
{
    match stmt {
        Stmt::Print(expr) => expr_fault(expr, class_type),
        Stmt::Expr(expr) => expr_fault(expr, class_type),
        Stmt::Var(_, initializer) => expr_fault(initializer, class_type),
        Stmt::Block(statements) => stmts_fault(statements, 0, class_type, function_type),
        Stmt::If(condition, then_branch, else_branch) => first(
            expr_fault(condition, class_type),
            first(
                stmt_fault(*then_branch, class_type, function_type),
                match *else_branch {
                    Some(otherwise) => stmt_fault(otherwise, class_type, function_type),
                    None => None,
                },
            ),
        ),
        Stmt::While(condition, body) => first(
            expr_fault(condition, class_type),
            stmt_fault(*body, class_type, function_type),
        ),
        Stmt::Func(declaration) => stmts_fault(
            declaration.body,
            0,
            class_type,
            Some(FunctionType::Function),
        ),
        Stmt::Return(keyword, value) => match function_type {
            None => Some(RuntimeError::ReturnAtTopLevel(keyword)),
            Some(FunctionType::Initializer) => Some(RuntimeError::ReturnInInitializer(keyword)),
            Some(_) => expr_fault(*value, class_type),
        },
        Stmt::Class(_, superclass, methods) => {
            let inner = if superclass is Some {
                Some(ClassType::SubClass)
            } else {
                Some(ClassType::Class)
            };
            first(
                match superclass {
                    Some(parent) => expr_fault(parent, inner),
                    None => None,
                },
                methods_fault(methods, 0, inner),
            )
        },
    }
}

/// The first misuse among the statements `stmts[from..]`.
pub open spec fn stmts_fault(
    stmts: Vec<Stmt>,
    from: nat,
    class_type: Option<ClassType>,
    function_type: Option<FunctionType>,
) -> Option<RuntimeError>
    decreases stmts, stmts@.len() - from,
{
    if from >= stmts@.len() {
        None
    } else {
        first(
            stmt_fault(stmts@[from as int], class_type, function_type),
            stmts_fault(stmts, from + 1, class_type, function_type),
        )
    }
}

/// The first misuse among the methods `methods[from..]` of a class.
pub open spec fn methods_fault(methods: Vec<Stmt>, from: nat, class_type: Option<ClassType>)
    -> Option<RuntimeError>
    decreases methods, methods@.len() - from,
{
    if from >= methods@.len() {
        None
    } else {
        first(
            match methods@[from as int] {
                Stmt::Func(declaration) => stmts_fault(
                    declaration.body,
                    0,
                    class_type,
                    Some(method_type(declaration.name.lexeme@)),
                ),
                _ => Some(RuntimeError::InternalError(Fault::InvalidMethod)),
            },
            methods_fault(methods, from + 1, class_type),
        )
    }
}

/// Entering a name twice leaves the flag entered last.
pub proof fn lemma_entered_twice(scopes: Scopes, name: Seq<char>, earlier: bool, later: bool)
    ensures
        entered(entered(scopes, name, earlier), name, later) == entered(scopes, name, later),
{
    if scopes.len() > 0 {
        let once = entered(scopes, name, earlier);
        assert(once.last().insert(name, later) =~= scopes.last().insert(name, later));
        assert(entered(once, name, later) =~= entered(scopes, name, later));
    }
}

/// Entering a name in the innermost scope is the same as pushing that scope
/// with the name entered.
pub proof fn lemma_entered_pushed(
    scopes: Scopes,
    scope: Map<Seq<char>, bool>,
    name: Seq<char>,
    complete: bool,
)
    ensures
        entered(scopes.push(scope), name, complete) == scopes.push(scope.insert(name, complete)),
{
    assert(entered(scopes.push(scope), name, complete) =~= scopes.push(
        scope.insert(name, complete),
    ));
}

/// A statement changes the innermost scope only.
pub proof fn lemma_scopes_after(stmt: Stmt, scopes: Scopes)
    ensures
        scopes_after(stmt, scopes).len() == scopes.len(),
        scopes.len() > 0 ==> scopes_after(stmt, scopes).drop_last() == scopes.drop_last(),
    decreases stmt,
{
    match stmt {
        Stmt::If(_, then_branch, else_branch) => {
            lemma_scopes_after(*then_branch, scopes);
            match *else_branch {
                Some(otherwise) => {
                    lemma_scopes_after(otherwise, scopes_after(*then_branch, scopes));
                },
                None => {},
            }
        },
        Stmt::While(_, body) => {
            lemma_scopes_after(*body, scopes);
        },
        Stmt::Var(name, _) => {
            if scopes.len() > 0 {
                assert(entered(scopes, name.lexeme@, true).drop_last() =~= scopes.drop_last());
            }
        },
        Stmt::Func(declaration) => {
            if scopes.len() > 0 {
                assert(entered(scopes, declaration.name.lexeme@, true).drop_last()
                    =~= scopes.drop_last());
            }
        },
        Stmt::Class(name, _, _) => {
            if scopes.len() > 0 {
                assert(entered(scopes, name.lexeme@, true).drop_last() =~= scopes.drop_last());
            }
        },
        _ => {},
    }
}

/// A list of statements changes the innermost scope only.
pub proof fn lemma_scopes_before(stmts: Vec<Stmt>, upto: nat, scopes: Scopes)
    ensures
        scopes_before(stmts, upto, scopes).len() == scopes.len(),
        scopes.len() > 0 ==> scopes_before(stmts, upto, scopes).drop_last() == scopes.drop_last(),
    decreases upto,
{
    if upto == 0 || upto > stmts@.len() {
    } else {
        lemma_scopes_before(stmts, (upto - 1) as nat, scopes);
        lemma_scopes_after(stmts@[upto - 1], scopes_before(stmts, (upto - 1) as nat, scopes));
    }
}

impl Resolver {
    /// The scopes as a mathematical value.
    pub open spec fn scopes_view(&self) -> Scopes {
        Seq::new(self.scopes@.len(), |i: int| self.scopes@[i]@)
    }

    /// A resolver at the top level of a program: no scope, no enclosing
    /// class or function.
    pub fn new() -> (r: Resolver)
        ensures
            r.scopes_view() == Seq::<Map<Seq<char>, bool>>::empty(),
            r.class_type is None,
            r.function_type is None,
    {
        let r = Resolver { scopes: Vec::new(), class_type: None, function_type: None };
        assert(r.scopes_view() =~= Seq::<Map<Seq<char>, bool>>::empty());
        r
    }

    /// Opens a scope inside the current innermost one.
    pub fn begin_scope(&mut self)
        ensures
            final(self).scopes_view() == old(self).scopes_view().push(Map::empty()),
            final(self).class_type == old(self).class_type,
            final(self).function_type == old(self).function_type,
    {
        self.scopes.push(Table::new());
        assert(self.scopes_view() =~= old(self).scopes_view().push(Map::empty()));
    }

    /// Closes the innermost scope. Does nothing where there is no scope.
    pub fn end_scope(&mut self)
        ensures
            old(self).scopes_view().len() > 0 ==> final(self).scopes_view() == old(
                self,
            ).scopes_view().drop_last(),
            old(self).scopes_view().len() == 0 ==> final(self).scopes_view() == old(
                self,
            ).scopes_view(),
            final(self).class_type == old(self).class_type,
            final(self).function_type == old(self).function_type,
    {
        self.scopes.pop();
        proof {
            if old(self).scopes_view().len() > 0 {
                assert(self.scopes_view() =~= old(self).scopes_view().drop_last());
            } else {
                assert(self.scopes_view() =~= old(self).scopes_view());
            }
        }
    }

    /// Enters a flag for `name` in the innermost scope.
    fn enter(&mut self, name: String, complete: bool)
        ensures
            final(self).scopes_view() == entered(old(self).scopes_view(), name@, complete),
            final(self).class_type == old(self).class_type,
            final(self).function_type == old(self).function_type,
    {
        let count = self.scopes.len();
        if count > 0 {
            self.scopes[count - 1].insert(name, complete);
            assert(self.scopes_view() =~= entered(old(self).scopes_view(), name@, complete));
        }
    }

    /// Declares `name` in the innermost scope: the name is known there, its
    /// definition not yet complete. Does nothing at the top level.
    pub fn declare(&mut self, name: String)
        ensures
            final(self).scopes_view() == entered(old(self).scopes_view(), name@, false),
            final(self).class_type == old(self).class_type,
            final(self).function_type == old(self).function_type,
    {
        self.enter(name, false);
    }

    /// Defines `name` in the innermost scope: its definition is complete.
    /// Does nothing at the top level.
    pub fn define(&mut self, name: String)
        ensures
            final(self).scopes_view() == entered(old(self).scopes_view(), name@, true),
            final(self).class_type == old(self).class_type,
            final(self).function_type == old(self).function_type,
    {
        self.enter(name, true);
    }

    /// How many scopes out from the innermost the nearest scope lies that
    /// holds the name; `None` where no scope holds it, which makes the
    /// reference a lookup in the global table.
    pub fn resolve_local(&self, lexeme: String) -> (r: Option<usize>)
        ensures
            r == local_distance(self.scopes_view(), lexeme@),
    {
        let count = self.scopes.len();
        let mut passed: usize = 0;
        proof {
            assert(self.scopes_view().subrange(0, count as int) =~= self.scopes_view());
            lemma_local_distance_bound(self.scopes_view(), lexeme@);
        }
        while passed < count
            invariant
                passed <= count,
                count == self.scopes@.len(),
                local_distance(self.scopes_view(), lexeme@) == match local_distance(
                    self.scopes_view().subrange(0, count - passed),
                    lexeme@,
                ) {
                    Some(distance) => Some((distance + passed) as usize),
                    None => None,
                },
                forall|distance: usize|
                    local_distance(self.scopes_view().subrange(0, count - passed), lexeme@)
                        == Some(distance) ==> distance < count - passed,
            decreases count - passed,
        {
            let ghost outer = self.scopes_view().subrange(0, count - passed);
            if self.scopes[count - 1 - passed].contains_key(lexeme.as_str()) {
                return Some(passed);
            }
            proof {
                assert(outer.drop_last() =~= self.scopes_view().subrange(
                    0,
                    count - passed - 1,
                ));
                lemma_local_distance_bound(outer.drop_last(), lexeme@);
            }
            passed += 1;
        }
        proof {
            assert(self.scopes_view().subrange(0, 0).len() == 0);
        }
        None
    }
}

/// A distance is less than the number of scopes.
pub proof fn lemma_local_distance_bound(scopes: Scopes, name: Seq<char>)
    requires
        scopes.len() <= usize::MAX,
    ensures
        local_distance(scopes, name) matches Some(distance) ==> distance < scopes.len(),
    decreases scopes.len(),
{
    if scopes.len() > 0 && !scopes.last().contains_key(name) {
        lemma_local_distance_bound(scopes.drop_last(), name);
    }
}

/// The statements of the body of a function declaration.
pub open spec fn function_body(stmt: Stmt) -> Vec<Stmt>
    recommends
        stmt is Func,
{
    stmt->Func_0.body
}

/// Resolution keeps a statement tidy: the resolved tree has declarations
/// where the tree before it has them, and nowhere else.
pub proof fn law_resolution_keeps_tidy(before: Stmt, after: Stmt, scopes: Scopes)
    requires
        stmt_resolved(before, after, scopes),
        all_tidy(before),
    ensures
        all_tidy(after),
        declares(after) == declares(before),
    decreases before, 0nat,
{
    match before {
        Stmt::Block(statements) => {
            let statements2 = after->Block_0;
            law_resolution_keeps_list_tidy(statements, statements2, scopes.push(Map::empty()));
        },
        Stmt::If(_, then_branch, else_branch) => {
            let then_branch2 = after->If_1;
            let else_branch2 = after->If_2;
            law_resolution_keeps_tidy(*then_branch, *then_branch2, scopes);
            match *else_branch {
                Some(otherwise) => {
                    law_resolution_keeps_tidy(
                        otherwise,
                        (*else_branch2)->Some_0,
                        scopes_after(*then_branch, scopes),
                    );
                },
                None => {},
            }
        },
        Stmt::While(_, body) => {
            law_resolution_keeps_tidy(*body, *after->While_1, scopes);
        },
        Stmt::Func(declaration) => {
            assert(function_resolved(
                *declaration,
                *after->Func_0,
                entered(scopes, declaration.name.lexeme@, true),
            ));
            law_resolution_keeps_list_tidy(
                function_body(before),
                function_body(after),
                entered(scopes, declaration.name.lexeme@, true).push(
                    parameter_scope(declaration.params@, declaration.params@.len()),
                ),
            );
        },
        Stmt::Class(name, superclass, methods) => {
            let methods2 = after->Class_2;
            law_resolution_keeps_list_tidy(
                methods,
                methods2,
                class_scopes(scopes, name.lexeme@, superclass is Some),
            );
        },
        _ => {},
    }
}

/// Resolution keeps a list of statements tidy.
pub proof fn law_resolution_keeps_list_tidy(before: Vec<Stmt>, after: Vec<Stmt>, scopes: Scopes)
    requires
        stmts_resolved(before, after, scopes),
        list_tidy(before),
    ensures
        list_tidy(after),
    decreases before, 1nat,
{
    assert forall|i: int| 0 <= i < after@.len() implies all_tidy(#[trigger] after@[i]) by {
        assert(all_tidy(before@[i]));
        law_resolution_keeps_tidy(
            before@[i],
            after@[i],
            scopes_before(before, i as nat, scopes),
        );
    }
}

/// Whether a resolver that ended with `result` and `scopes` resolved a
/// statement as it should: the first misuse is reported, and
/// where there is none the statement comes back resolved, the scopes are
/// those that the statement leaves, and the enclosing kinds are unchanged.
pub open spec fn statement_outcome(
    before: Resolver,
    stmt: Stmt,
    after: Resolver,
    result: Result<Stmt, RuntimeError>,
) -> bool {
    match stmt_fault(stmt, before.class_type, before.function_type) {
        Some(error) => result == Err::<Stmt, RuntimeError>(error),
        None => {
            &&& result matches Ok(resolved) && stmt_resolved(stmt, resolved, before.scopes_view())
            &&& after.scopes_view() == scopes_after(stmt, before.scopes_view())
            &&& after.class_type == before.class_type
            &&& after.function_type == before.function_type
        },
    }
}

impl Resolver {
    /// Resolves an expression in the current scopes.
    #[verifier::loop_isolation(false)]
    pub fn resolve_expression(&self, expr: &Expr) -> (r: Result<Expr, RuntimeError>)
        ensures
            match expr_fault(*expr, self.class_type) {
                Some(error) => r == Err::<Expr, RuntimeError>(error),
                None => r matches Ok(resolved) && expr_resolved(
                    *expr,
                    resolved,
                    self.scopes_view(),
                ),
            },
        decreases expr,
    {
        match expr {
            Expr::Literal(literal) => Ok(Expr::Literal(literal.clone())),
            Expr::Grouping(inner) => {
                let inner = self.resolve_expression(inner)?;
                Ok(Expr::Grouping(Box::new(inner)))
            },
            Expr::Unary(operator, operand) => {
                let operand = self.resolve_expression(operand)?;
                Ok(Expr::Unary(operator.clone(), Box::new(operand)))
            },
            Expr::Binary(left, operator, right) => {
                let left = self.resolve_expression(left)?;
                let right = self.resolve_expression(right)?;
                Ok(Expr::Binary(Box::new(left), operator.clone(), Box::new(right)))
            },
            Expr::Logical(left, operator, right) => {
                let left = self.resolve_expression(left)?;
                let right = self.resolve_expression(right)?;
                Ok(Expr::Logical(Box::new(left), operator.clone(), Box::new(right)))
            },
            Expr::Var(name, _) => {
                let distance = self.resolve_local(name.lexeme.clone());
                Ok(Expr::Var(name.clone(), distance))
            },
            Expr::Assign(name, value, _) => {
                let value = self.resolve_expression(value)?;
                let distance = self.resolve_local(name.lexeme.clone());
                Ok(Expr::Assign(name.clone(), Box::new(value), distance))
            },
            Expr::Call(callee, arguments, paren) => {
                let callee = self.resolve_expression(callee)?;
                let mut resolved: Vec<Expr> = Vec::new();
                let mut i: usize = 0;
                while i < arguments.len()
                    invariant
                        i <= arguments@.len(),
                        resolved@.len() == i,
                        exprs_fault(*arguments, 0, self.class_type) == exprs_fault(
                            *arguments,
                            i as nat,
                            self.class_type,
                        ),
                        forall|j: int|
                            0 <= j < i ==> expr_resolved(
                                #[trigger] arguments@[j],
                                resolved@[j],
                                self.scopes_view(),
                            ),
                    decreases arguments@.len() - i,
                {
                    let argument = self.resolve_expression(&arguments[i])?;
                    resolved.push(argument);
                    i += 1;
                }
                Ok(Expr::Call(Box::new(callee), resolved, paren.clone()))
            },
            Expr::Get(target, name) => {
                let target = self.resolve_expression(target)?;
                Ok(Expr::Get(Box::new(target), name.clone()))
            },
            Expr::SetProperty(target, name, value) => {
                let target = self.resolve_expression(target)?;
                let value = self.resolve_expression(value)?;
                Ok(Expr::SetProperty(Box::new(target), name.clone(), Box::new(value)))
            },
            Expr::This(keyword, _) => {
                if self.class_type.is_none() {
                    return Err(RuntimeError::ThisOutsideMethod(keyword.clone()));
                }
                let distance = self.resolve_local(keyword.lexeme.clone());
                Ok(Expr::This(keyword.clone(), distance))
            },
            Expr::Super(keyword, method, _) => {
                match self.class_type {
                    None => Err(RuntimeError::SuperOutsideMethod(keyword.clone())),
                    Some(ClassType::Class) => Err(
                        RuntimeError::SuperWithoutSuperclass(keyword.clone()),
                    ),
                    Some(ClassType::SubClass) => {
                        let distance = self.resolve_local(keyword.lexeme.clone());
                        Ok(Expr::Super(keyword.clone(), method.clone(), distance))
                    },
                }
            },
        }
    }

    /// Resolves a whole program in place. On a misuse the program is left
    /// as it was and the misuse is returned; the resolver is then spent.
    pub fn resolve_ast(&mut self, ast: &mut Vec<Stmt>) -> (r: Result<(), RuntimeError>)
        ensures
            match stmts_fault(*old(ast), 0, old(self).class_type, old(self).function_type) {
                Some(error) => r == Err::<(), RuntimeError>(error) && *final(ast) == *old(ast),
                None => {
                    &&& r is Ok
                    &&& stmts_resolved(*old(ast), *final(ast), old(self).scopes_view())
                    &&& final(self).scopes_view() == scopes_before(
                        *old(ast),
                        old(ast)@.len(),
                        old(self).scopes_view(),
                    )
                    &&& final(self).class_type == old(self).class_type
                    &&& final(self).function_type == old(self).function_type
                    &&& list_tidy(*old(ast)) ==> list_tidy(*final(ast))
                },
            },
    {
        let resolved = self.resolve_statements(ast)?;
        proof {
            if list_tidy(*ast) {
                law_resolution_keeps_list_tidy(*ast, resolved, old(self).scopes_view());
            }
        }
        *ast = resolved;
        Ok(())
    }

    /// Resolves statements in order, each in the scopes that its
    /// predecessors leave.
    fn resolve_statements(&mut self, stmts: &Vec<Stmt>) -> (r: Result<Vec<Stmt>, RuntimeError>)
        ensures
            match stmts_fault(*stmts, 0, old(self).class_type, old(self).function_type) {
                Some(error) => r == Err::<Vec<Stmt>, RuntimeError>(error),
                None => {
                    &&& r matches Ok(resolved) && stmts_resolved(
                        *stmts,
                        resolved,
                        old(self).scopes_view(),
                    )
                    &&& final(self).scopes_view() == scopes_before(
                        *stmts,
                        stmts@.len(),
                        old(self).scopes_view(),
                    )
                    &&& final(self).class_type == old(self).class_type
                    &&& final(self).function_type == old(self).function_type
                },
            },
        decreases stmts, 1nat,
    {
        let mut resolved: Vec<Stmt> = Vec::new();
        let mut i: usize = 0;
        while i < stmts.len()
            invariant
                i <= stmts@.len(),
                resolved@.len() == i,
                self.class_type == old(self).class_type,
                self.function_type == old(self).function_type,
                self.scopes_view() == scopes_before(*stmts, i as nat, old(self).scopes_view()),
                stmts_fault(*stmts, 0, self.class_type, self.function_type) == stmts_fault(
                    *stmts,
                    i as nat,
                    self.class_type,
                    self.function_type,
                ),
                forall|j: int|
                    0 <= j < i ==> stmt_resolved(
                        #[trigger] stmts@[j],
                        resolved@[j],
                        scopes_before(*stmts, j as nat, old(self).scopes_view()),
                    ),
            decreases stmts@.len() - i,
        {
            let stmt = self.resolve_statement(&stmts[i])?;
            resolved.push(stmt);
            i += 1;
        }
        Ok(resolved)
    }

    /// Resolves the methods of a class in order, in the scope that binds
    /// `this`.
    fn resolve_methods(&mut self, methods: &Vec<Stmt>) -> (r: Result<Vec<Stmt>, RuntimeError>)
        ensures
            match methods_fault(*methods, 0, old(self).class_type) {
                Some(error) => r == Err::<Vec<Stmt>, RuntimeError>(error),
                None => {
                    &&& r matches Ok(resolved) && stmts_resolved(
                        *methods,
                        resolved,
                        old(self).scopes_view(),
                    )
                    &&& final(self).scopes_view() == scopes_before(
                        *methods,
                        methods@.len(),
                        old(self).scopes_view(),
                    )
                    &&& final(self).class_type == old(self).class_type
                    &&& final(self).function_type == old(self).function_type
                },
            },
        decreases methods, 1nat,
    {
        let mut resolved: Vec<Stmt> = Vec::new();
        let mut i: usize = 0;
        while i < methods.len()
            invariant
                i <= methods@.len(),
                resolved@.len() == i,
                self.class_type == old(self).class_type,
                self.function_type == old(self).function_type,
                self.scopes_view() == scopes_before(*methods, i as nat, old(self).scopes_view()),
                methods_fault(*methods, 0, self.class_type) == methods_fault(
                    *methods,
                    i as nat,
                    self.class_type,
                ),
                forall|j: int|
                    0 <= j < i ==> stmt_resolved(
                        #[trigger] methods@[j],
                        resolved@[j],
                        scopes_before(*methods, j as nat, old(self).scopes_view()),
                    ),
            decreases methods@.len() - i,
        {
            match &methods[i] {
                Stmt::Func(declaration) => {
                    self.declare(declaration.name.lexeme.clone());
                    self.define(declaration.name.lexeme.clone());
                    let function_type = if same_text(declaration.name.lexeme.as_str(), "init") {
                        FunctionType::Initializer
                    } else {
                        FunctionType::Method
                    };
                    proof {
                        lemma_entered_twice(
                            scopes_before(*methods, i as nat, old(self).scopes_view()),
                            declaration.name.lexeme@,
                            false,
                            true,
                        );
                    }
                    let function = self.resolve_function(declaration, Some(function_type))?;
                    resolved.push(Stmt::Func(Rc::new(function)));
                },
                _ => {
                    return Err(RuntimeError::InternalError(Fault::InvalidMethod));
                },
            }
            i += 1;
        }
        Ok(resolved)
    }

    /// Resolves a function: its parameters and its body share one scope
    /// inside the current ones, and `function_type` is the enclosing kind
    /// while the body is resolved.
    fn resolve_function(&mut self, declaration: &Function, function_type: Option<FunctionType>)
        -> (r: Result<Function, RuntimeError>)
        ensures
            match stmts_fault(declaration.body, 0, old(self).class_type, function_type) {
                Some(error) => r == Err::<Function, RuntimeError>(error),
                None => {
                    &&& r matches Ok(resolved) && function_resolved(
                        *declaration,
                        resolved,
                        old(self).scopes_view(),
                    )
                    &&& final(self).scopes_view() == old(self).scopes_view()
                    &&& final(self).class_type == old(self).class_type
                    &&& final(self).function_type == old(self).function_type
                },
            },
        decreases declaration, 0nat,
    {
        let enclosing = self.function_type;
        self.function_type = function_type;
        self.begin_scope();
        let mut params: Vec<Token> = Vec::new();
        let mut i: usize = 0;
        while i < declaration.params.len()
            invariant
                i <= declaration.params@.len(),
                params@ == declaration.params@.subrange(0, i as int),
                self.class_type == old(self).class_type,
                self.function_type == function_type,
                self.scopes_view() == old(self).scopes_view().push(
                    parameter_scope(declaration.params@, i as nat),
                ),
            decreases declaration.params@.len() - i,
        {
            let ghost before = self.scopes_view();
            self.declare(declaration.params[i].lexeme.clone());
            self.define(declaration.params[i].lexeme.clone());
            params.push(declaration.params[i].clone());
            i += 1;
            proof {
                assert(params@ =~= declaration.params@.subrange(0, i as int));
                let name = declaration.params@[i - 1].lexeme@;
                let scope = parameter_scope(declaration.params@, (i - 1) as nat);
                lemma_entered_twice(before, name, false, true);
                lemma_entered_pushed(old(self).scopes_view(), scope, name, true);
            }
        }
        proof {
            assert(params@ =~= declaration.params@);
        }
        let ghost inner = self.scopes_view();
        let body = self.resolve_statements(&declaration.body)?;
        proof {
            lemma_scopes_before(declaration.body, declaration.body@.len(), inner);
            assert(inner.drop_last() =~= old(self).scopes_view());
        }
        self.end_scope();
        self.function_type = enclosing;
        Ok(Function { name: declaration.name.clone(), params, body })
    }

    /// Resolves a statement.
    fn resolve_statement(&mut self, stmt: &Stmt) -> (r: Result<Stmt, RuntimeError>)
        ensures
            statement_outcome(*old(self), *stmt, *final(self), r),
        decreases stmt, 1nat,
    {
        match stmt {
            Stmt::Print(expr) => {
                let expr = self.resolve_expression(expr)?;
                Ok(Stmt::Print(expr))
            },
            Stmt::Expr(expr) => {
                let expr = self.resolve_expression(expr)?;
                Ok(Stmt::Expr(expr))
            },
            Stmt::Var(name, initializer) => {
                self.declare(name.lexeme.clone());
                let initializer = self.resolve_expression(initializer)?;
                self.define(name.lexeme.clone());
                proof {
                    lemma_entered_twice(old(self).scopes_view(), name.lexeme@, false, true);
                }
                Ok(Stmt::Var(name.clone(), initializer))
            },
            Stmt::Block(statements) => {
                self.begin_scope();
                let ghost inner = self.scopes_view();
                let statements2 = self.resolve_statements(statements)?;
                proof {
                    lemma_scopes_before(*statements, statements@.len(), inner);
                    assert(inner.drop_last() =~= old(self).scopes_view());
                }
                self.end_scope();
                Ok(Stmt::Block(statements2))
            },
            Stmt::If(condition, then_branch, else_branch) => {
                let condition = self.resolve_expression(condition)?;
                let then_branch = self.resolve_statement(then_branch)?;
                let else_branch = match &**else_branch {
                    Some(otherwise) => Some(self.resolve_statement(otherwise)?),
                    None => None,
                };
                Ok(Stmt::If(condition, Box::new(then_branch), Box::new(else_branch)))
            },
            Stmt::While(condition, body) => {
                let condition = self.resolve_expression(condition)?;
                let body = self.resolve_statement(body)?;
                Ok(Stmt::While(condition, Box::new(body)))
            },
            Stmt::Func(declaration) => {
                self.declare(declaration.name.lexeme.clone());
                self.define(declaration.name.lexeme.clone());
                proof {
                    lemma_entered_twice(
                        old(self).scopes_view(),
                        declaration.name.lexeme@,
                        false,
                        true,
                    );
                }
                let function = self.resolve_function(declaration, Some(FunctionType::Function))?;
                Ok(Stmt::Func(Rc::new(function)))
            },
            Stmt::Return(keyword, value) => {
                match self.function_type {
                    None => {
                        return Err(RuntimeError::ReturnAtTopLevel(keyword.clone()));
                    },
                    Some(FunctionType::Initializer) => {
                        return Err(RuntimeError::ReturnInInitializer(keyword.clone()));
                    },
                    Some(_) => {},
                }
                let value = self.resolve_expression(value)?;
                Ok(Stmt::Return(keyword.clone(), Box::new(value)))
            },
            Stmt::Class(_, _, _) => self.resolve_class(stmt),
        }
    }

    /// Resolves a class declaration.
    fn resolve_class(&mut self, stmt: &Stmt) -> (r: Result<Stmt, RuntimeError>)
        requires
            stmt is Class,
        ensures
            statement_outcome(*old(self), *stmt, *final(self), r),
        decreases stmt, 0nat,
    {
        match stmt {
            Stmt::Class(name, superclass, methods) => {
                self.declare(name.lexeme.clone());
                let enclosing = self.class_type;
                self.class_type = Some(ClassType::Class);
                let ghost declared = self.scopes_view();
                let superclass2 = match superclass {
                    Some(parent) => {
                        self.class_type = Some(ClassType::SubClass);
                        let parent = self.resolve_expression(parent)?;
                        self.begin_scope();
                        self.define(String::from_str("super"));
                        Some(parent)
                    },
                    None => None,
                };
                self.begin_scope();
                self.define(String::from_str("this"));
                let ghost inner = self.scopes_view();
                proof {
                    if superclass is Some {
                        lemma_entered_pushed(declared, Map::empty(), "super"@, true);
                        lemma_entered_pushed(
                            declared.push(Map::<Seq<char>, bool>::empty().insert("super"@, true)),
                            Map::empty(),
                            "this"@,
                            true,
                        );
                    } else {
                        lemma_entered_pushed(declared, Map::empty(), "this"@, true);
                    }
                }
                let methods2 = self.resolve_methods(methods)?;
                proof {
                    lemma_scopes_before(*methods, methods@.len(), inner);
                    if superclass is Some {
                        assert(inner.drop_last().drop_last() =~= declared);
                    } else {
                        assert(inner.drop_last() =~= declared);
                    }
                }
                self.end_scope();
                if superclass.is_some() {
                    self.end_scope();
                }
                self.class_type = enclosing;
                self.define(name.lexeme.clone());
                proof {
                    lemma_entered_twice(old(self).scopes_view(), name.lexeme@, false, true);
                }
                Ok(Stmt::Class(name.clone(), superclass2, methods2))
            },
            _ => Err(RuntimeError::InternalError(Fault::InvalidMethod)),
        }
    }
}

} // verus!
