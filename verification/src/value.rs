//! Runtime values and the operators of the language on them.

use vstd::prelude::*;
use vstd::string::StringExecFns;
use crate::number::{
    difference_bits, is_zero, negated, numerically_equal, numerically_less, product_bits,
    quotient_bits, sum_bits, Number,
};
use crate::token::{Literal, LiteralView};

verus! {

/// Why an operator could not be applied to its operands.
#[derive(Debug, Clone, Copy, PartialEq, Eq, Structural)]
pub enum ValueError {
    /// An operand has a type that the operator does not accept.
    TypeError,
    /// The divisor of a division is zero.
    DivideByZero,
}

/// What names a callable value: a function object or a class, each by its
/// handle in the interpreter's heap.
#[derive(Debug, Clone, Copy, PartialEq, Eq, Structural)]
pub enum CallableHandle {
    Func(usize),
    Class(usize),
}

/// A runtime value. Functions, classes and instances are handles into the
/// interpreter's heap: two such values are the same object exactly when
/// their handles are equal.
#[derive(Debug)]
pub enum LoxValue {
    Number(Number),
    String(String),
    Bool(bool),
    Func(usize),
    Class(usize),
    Instance(usize),
    Nil,
}

/// A runtime value as a mathematical value.
pub enum LoxValueView {
    Number(u64),
    String(Seq<char>),
    Bool(bool),
    Func(usize),
    Class(usize),
    Instance(usize),
    Nil,
}

impl View for LoxValue {
    type V = LoxValueView;

    open spec fn view(&self) -> LoxValueView {
        match *self {
            LoxValue::Number(number) => LoxValueView::Number(number.bits),
            LoxValue::String(text) => LoxValueView::String(text@),
            LoxValue::Bool(b) => LoxValueView::Bool(b),
            LoxValue::Func(handle) => LoxValueView::Func(handle),
            LoxValue::Class(handle) => LoxValueView::Class(handle),
            LoxValue::Instance(handle) => LoxValueView::Instance(handle),
            LoxValue::Nil => LoxValueView::Nil,
        }
    }
}

impl Clone for LoxValue {
    fn clone(&self) -> (r: LoxValue)
        ensures
            r == *self,
    {
        match self {
            LoxValue::Number(number) => LoxValue::Number(*number),
            LoxValue::String(text) => LoxValue::String(text.clone()),
            LoxValue::Bool(b) => LoxValue::Bool(*b),
            LoxValue::Func(handle) => LoxValue::Func(*handle),
            LoxValue::Class(handle) => LoxValue::Class(*handle),
            LoxValue::Instance(handle) => LoxValue::Instance(*handle),
            LoxValue::Nil => LoxValue::Nil,
        }
    }
}

/// The outcome of an operator, with the value taken by its view.
pub open spec fn outcome_view(r: Result<LoxValue, ValueError>) -> Result<LoxValueView, ValueError> {
    match r {
        Ok(value) => Ok(value@),
        Err(error) => Err(error),
    }
}

/// The value of a literal.
pub open spec fn literal_value(literal: LiteralView) -> LoxValueView {
    match literal {
        LiteralView::Number(bits) => LoxValueView::Number(bits),
        LiteralView::String(text) => LoxValueView::String(text),
        LiteralView::Bool(b) => LoxValueView::Bool(b),
        LiteralView::Nil => LoxValueView::Nil,
    }
}

/// Truthiness: `false` and `nil` are false, every other value is true.
pub open spec fn truthy(value: LoxValueView) -> bool {
    match value {
        LoxValueView::Bool(b) => b,
        LoxValueView::Nil => false,
        _ => true,
    }
}

/// Equality of the language: by value for numbers, strings, booleans and
/// `nil`; by identity for functions, classes and instances; false across
/// kinds.
pub open spec fn values_equal(a: LoxValueView, b: LoxValueView) -> bool {
    match (a, b) {
        (LoxValueView::Number(x), LoxValueView::Number(y)) => numerically_equal(x, y),
        (LoxValueView::String(x), LoxValueView::String(y)) => x == y,
        (LoxValueView::Bool(x), LoxValueView::Bool(y)) => x == y,
        (LoxValueView::Nil, LoxValueView::Nil) => true,
        (LoxValueView::Func(x), LoxValueView::Func(y)) => x == y,
        (LoxValueView::Class(x), LoxValueView::Class(y)) => x == y,
        (LoxValueView::Instance(x), LoxValueView::Instance(y)) => x == y,
        _ => false,
    }
}

/// Unary minus.
pub open spec fn negated_value(a: LoxValueView) -> Result<LoxValueView, ValueError> {
    match a {
        LoxValueView::Number(x) => Ok(LoxValueView::Number(negated(x))),
        _ => Err(ValueError::TypeError),
    }
}

/// `a - b`
pub open spec fn difference(a: LoxValueView, b: LoxValueView) -> Result<LoxValueView, ValueError> {
    match (a, b) {
        (LoxValueView::Number(x), LoxValueView::Number(y)) => Ok(
            LoxValueView::Number(difference_bits(x, y)),
        ),
        _ => Err(ValueError::TypeError),
    }
}

/// `a / b`: a zero divisor is an error of its own kind.
pub open spec fn quotient(a: LoxValueView, b: LoxValueView) -> Result<LoxValueView, ValueError> {
    match (a, b) {
        (LoxValueView::Number(x), LoxValueView::Number(y)) => if is_zero(y) {
            Err(ValueError::DivideByZero)
        } else {
            Ok(LoxValueView::Number(quotient_bits(x, y)))
        },
        _ => Err(ValueError::TypeError),
    }
}

/// `a * b`
pub open spec fn product(a: LoxValueView, b: LoxValueView) -> Result<LoxValueView, ValueError> {
    match (a, b) {
        (LoxValueView::Number(x), LoxValueView::Number(y)) => Ok(
            LoxValueView::Number(product_bits(x, y)),
        ),
        _ => Err(ValueError::TypeError),
    }
}

/// `a + b`: the sum of two numbers or the concatenation of two strings.
pub open spec fn sum(a: LoxValueView, b: LoxValueView) -> Result<LoxValueView, ValueError> {
    match (a, b) {
        (LoxValueView::Number(x), LoxValueView::Number(y)) => Ok(
            LoxValueView::Number(sum_bits(x, y)),
        ),
        (LoxValueView::String(x), LoxValueView::String(y)) => Ok(LoxValueView::String(x + y)),
        _ => Err(ValueError::TypeError),
    }
}

/// `a < b`
pub open spec fn less(a: LoxValueView, b: LoxValueView) -> Result<LoxValueView, ValueError> {
    match (a, b) {
        (LoxValueView::Number(x), LoxValueView::Number(y)) => Ok(
            LoxValueView::Bool(numerically_less(x, y)),
        ),
        _ => Err(ValueError::TypeError),
    }
}

/// `a <= b`
pub open spec fn less_equal(a: LoxValueView, b: LoxValueView) -> Result<LoxValueView, ValueError> {
    match (a, b) {
        (LoxValueView::Number(x), LoxValueView::Number(y)) => Ok(
            LoxValueView::Bool(numerically_less(x, y) || numerically_equal(x, y)),
        ),
        _ => Err(ValueError::TypeError),
    }
}

/// `a > b`
pub open spec fn greater(a: LoxValueView, b: LoxValueView) -> Result<LoxValueView, ValueError> {
    less(b, a)
}

/// `a >= b`
pub open spec fn greater_equal(a: LoxValueView, b: LoxValueView) -> Result<
    LoxValueView,
    ValueError,
> {
    less_equal(b, a)
}

/// What a value can be called as, if it can be called.
pub open spec fn callable_of(a: LoxValueView) -> Option<CallableHandle> {
    match a {
        LoxValueView::Func(handle) => Some(CallableHandle::Func(handle)),
        LoxValueView::Class(handle) => Some(CallableHandle::Class(handle)),
        _ => None,
    }
}

impl Literal {
    /// The runtime value of the literal.
    pub fn value(&self) -> (r: Option<LoxValue>)
        ensures
            r matches Some(value) && value@ == literal_value(self@),
    {
        match self {
            Literal::Number(number) => Some(LoxValue::Number(*number)),
            Literal::String(text) => Some(LoxValue::String(text.clone())),
            Literal::Bool(b) => Some(LoxValue::Bool(*b)),
            Literal::Nil => Some(LoxValue::Nil),
        }
    }
}

impl LoxValue {
    /// Whether the value counts as true in a condition.
    pub fn is_truthy(&self) -> (r: bool)
        ensures
            r == truthy(self@),
    {
        match self {
            LoxValue::Bool(b) => *b,
            LoxValue::Nil => false,
            _ => true,
        }
    }

    /// Unary minus: defined on numbers only.
    pub fn negate_number(&self) -> (r: Result<LoxValue, ValueError>)
        ensures
            outcome_view(r) == negated_value(self@),
    {
        match self {
            LoxValue::Number(number) => Ok(LoxValue::Number(number.negate())),
            _ => Err(ValueError::TypeError),
        }
    }

    /// Logical negation of the value's truthiness; never fails.
    pub fn negate(&self) -> (r: Result<LoxValue, ValueError>)
        ensures
            outcome_view(r) == Ok::<LoxValueView, ValueError>(LoxValueView::Bool(!truthy(self@))),
    {
        Ok(LoxValue::Bool(!self.is_truthy()))
    }

    /// `self - other`
    pub fn subtract(&self, other: LoxValue) -> (r: Result<LoxValue, ValueError>)
        ensures
            outcome_view(r) == difference(self@, other@),
    {
        match (self, &other) {
            (LoxValue::Number(left), LoxValue::Number(right)) => Ok(
                LoxValue::Number(left.difference(right)),
            ),
            _ => Err(ValueError::TypeError),
        }
    }

    /// `self / other`
    pub fn divide(&self, other: LoxValue) -> (r: Result<LoxValue, ValueError>)
        ensures
            outcome_view(r) == quotient(self@, other@),
    {
        match (self, &other) {
            (LoxValue::Number(left), LoxValue::Number(right)) => {
                if right.is_zero() {
                    Err(ValueError::DivideByZero)
                } else {
                    Ok(LoxValue::Number(left.quotient(right)))
                }
            },
            _ => Err(ValueError::TypeError),
        }
    }

    /// `self * other`
    pub fn multiply(&self, other: LoxValue) -> (r: Result<LoxValue, ValueError>)
        ensures
            outcome_view(r) == product(self@, other@),
    {
        match (self, &other) {
            (LoxValue::Number(left), LoxValue::Number(right)) => Ok(
                LoxValue::Number(left.product(right)),
            ),
            _ => Err(ValueError::TypeError),
        }
    }

    /// `self + other`
    pub fn plus(&self, other: LoxValue) -> (r: Result<LoxValue, ValueError>)
        ensures
            outcome_view(r) == sum(self@, other@),
    {
        match (self, &other) {
            (LoxValue::Number(left), LoxValue::Number(right)) => Ok(
                LoxValue::Number(left.sum(right)),
            ),
            (LoxValue::String(left), LoxValue::String(right)) => Ok(
                LoxValue::String(left.clone().concat(right.as_str())),
            ),
            _ => Err(ValueError::TypeError),
        }
    }

    /// `self > other`
    pub fn is_greater(&self, other: LoxValue) -> (r: Result<LoxValue, ValueError>)
        ensures
            outcome_view(r) == greater(self@, other@),
    {
        match (self, &other) {
            (LoxValue::Number(left), LoxValue::Number(right)) => Ok(
                LoxValue::Bool(right.less_than(left)),
            ),
            _ => Err(ValueError::TypeError),
        }
    }

    /// `self >= other`
    pub fn is_greater_equal(&self, other: LoxValue) -> (r: Result<LoxValue, ValueError>)
        ensures
            outcome_view(r) == greater_equal(self@, other@),
    {
        match (self, &other) {
            (LoxValue::Number(left), LoxValue::Number(right)) => Ok(
                LoxValue::Bool(right.less_than(left) || right.equals(left)),
            ),
            _ => Err(ValueError::TypeError),
        }
    }

    /// `self < other`
    pub fn is_less(&self, other: LoxValue) -> (r: Result<LoxValue, ValueError>)
        ensures
            outcome_view(r) == less(self@, other@),
    {
        match (self, &other) {
            (LoxValue::Number(left), LoxValue::Number(right)) => Ok(
                LoxValue::Bool(left.less_than(right)),
            ),
            _ => Err(ValueError::TypeError),
        }
    }

    /// `self <= other`
    pub fn is_less_equal(&self, other: LoxValue) -> (r: Result<LoxValue, ValueError>)
        ensures
            outcome_view(r) == less_equal(self@, other@),
    {
        match (self, &other) {
            (LoxValue::Number(left), LoxValue::Number(right)) => Ok(
                LoxValue::Bool(left.less_than(right) || left.equals(right)),
            ),
            _ => Err(ValueError::TypeError),
        }
    }

    /// `self != other`; never fails.
    pub fn is_not_equal(&self, other: &LoxValue) -> (r: Result<LoxValue, ValueError>)
        ensures
            outcome_view(r) == Ok::<LoxValueView, ValueError>(
                LoxValueView::Bool(!values_equal(self@, other@)),
            ),
    {
        match self.is_equal(other) {
            Ok(LoxValue::Bool(equal)) => Ok(LoxValue::Bool(!equal)),
            Ok(value) => Ok(value),
            Err(error) => Err(error),
        }
    }

    /// `self == other`; never fails.
    pub fn is_equal(&self, other: &LoxValue) -> (r: Result<LoxValue, ValueError>)
        ensures
            outcome_view(r) == Ok::<LoxValueView, ValueError>(
                LoxValueView::Bool(values_equal(self@, other@)),
            ),
    {
        let result = match (self, other) {
            (LoxValue::Number(left), LoxValue::Number(right)) => left.equals(right),
            (LoxValue::String(left), LoxValue::String(right)) => left.eq(right),
            (LoxValue::Bool(left), LoxValue::Bool(right)) => *left == *right,
            (LoxValue::Nil, LoxValue::Nil) => true,
            (LoxValue::Func(left), LoxValue::Func(right)) => *left == *right,
            (LoxValue::Class(left), LoxValue::Class(right)) => *left == *right,
            (LoxValue::Instance(left), LoxValue::Instance(right)) => *left == *right,
            _ => false,
        };
        Ok(LoxValue::Bool(result))
    }

    /// The function or class behind the value, if it is one.
    pub fn get_callable(&self) -> (r: Option<CallableHandle>)
        ensures
            r == callable_of(self@),
    {
        match self {
            LoxValue::Func(handle) => Some(CallableHandle::Func(*handle)),
            LoxValue::Class(handle) => Some(CallableHandle::Class(*handle)),
            _ => None,
        }
    }
}

} // verus!
