//! The errors of the three stages of the pipeline.

use vstd::prelude::*;
use crate::token::Token;
use crate::value::{LoxValue, LoxValueView};

verus! {

/// A lexical error, with the line it was found on and what is wrong.
#[derive(Debug)]
pub enum ScannerError {
    ScannerError(usize, String),
}

/// A scanner error as a mathematical value.
pub enum ScannerErrorView {
    ScannerError(usize, Seq<char>),
}

impl View for ScannerError {
    type V = ScannerErrorView;

    open spec fn view(&self) -> ScannerErrorView {
        match *self {
            ScannerError::ScannerError(line, message) => ScannerErrorView::ScannerError(
                line,
                message@,
            ),
        }
    }
}

/// A syntax error.
#[derive(Debug)]
pub enum ParsingError {
    /// Another token was expected here; the message says which.
    UnexpectedTokenError(Token, String),
    /// The input ended where an expression was expected.
    UnexpectedEofError,
    /// The left-hand side of this `=` is neither a variable nor a property.
    InvalidAssignmentError(Token),
    /// A literal token that carries no value.
    InternalError(String),
    /// A function is declared with more parameters than the language allows.
    TooManyParametersError,
    /// A call passes more arguments than the language allows.
    TooManyArgumentsError,
}

/// A syntax error as a mathematical value.
pub enum ParsingErrorView {
    UnexpectedTokenError(Token, Seq<char>),
    UnexpectedEofError,
    InvalidAssignmentError(Token),
    InternalError(Seq<char>),
    TooManyParametersError,
    TooManyArgumentsError,
}

impl View for ParsingError {
    type V = ParsingErrorView;

    open spec fn view(&self) -> ParsingErrorView {
        match *self {
            ParsingError::UnexpectedTokenError(token, message) => {
                ParsingErrorView::UnexpectedTokenError(token, message@)
            },
            ParsingError::UnexpectedEofError => ParsingErrorView::UnexpectedEofError,
            ParsingError::InvalidAssignmentError(token) => {
                ParsingErrorView::InvalidAssignmentError(token)
            },
            ParsingError::InternalError(message) => ParsingErrorView::InternalError(message@),
            ParsingError::TooManyParametersError => ParsingErrorView::TooManyParametersError,
            ParsingError::TooManyArgumentsError => ParsingErrorView::TooManyArgumentsError,
        }
    }
}

/// A state of the interpreter's heap that no program can bring about. The
/// interpreter reports it rather than trusting that it cannot happen.
#[derive(Debug, Clone, Copy, PartialEq, Eq, Structural)]
pub enum Fault {
    /// A literal that has no value.
    InvalidLiteral,
    /// A call that is asked to evaluate an expression that is no call.
    InvalidCall,
    /// A unary expression whose operator is neither `-` nor `!`.
    InvalidUnaryOperator,
    /// A binary expression whose operator is no binary operator.
    InvalidBinaryOperator,
    /// The handle of an environment that the heap does not hold.
    DanglingEnvironment,
    /// The handle of a function that the heap does not hold.
    DanglingFunction,
    /// The handle of a class that the heap does not hold.
    DanglingClass,
    /// The handle of an instance that the heap does not hold.
    DanglingInstance,
    /// A `super` expression without a resolved distance.
    UnresolvedSuper,
    /// `super` is not bound to a class where the resolver said it is.
    MissingSuper,
    /// `this` is not bound to an instance where the resolver said it is.
    MissingThis,
    /// Something other than a function declaration among a class's methods.
    InvalidMethod,
}

/// An error that ends a run: a misuse that the resolver finds before the
/// program starts, or a failure while it runs.
#[derive(Debug)]
pub enum RuntimeError {
    /// `return` outside of any function.
    ReturnAtTopLevel(Token),
    /// `return` inside an initializer.
    ReturnInInitializer(Token),
    /// `this` outside of any class.
    ThisOutsideMethod(Token),
    /// `super` outside of any class.
    SuperOutsideMethod(Token),
    /// `super` in a class that has no superclass.
    SuperWithoutSuperclass(Token),
    /// Unary `-` on something that is no number.
    NegateNonNumberError(Token),
    /// `-` with an operand that is no number.
    SubtractNonNumbers(Token),
    /// `/` with an operand that is no number.
    DivideNonNumbers(Token),
    /// `/` with a divisor that is zero.
    DivideByZeroError(Token),
    /// `*` with an operand that is no number.
    MultiplyNonNumbers(Token),
    /// `+` on anything but two numbers or two strings.
    PlusTypeError(Token),
    /// `>` with an operand that is no number.
    GreaterNonNumbers(Token),
    /// `>=` with an operand that is no number.
    GreaterEqualNonNumbers(Token),
    /// `<` with an operand that is no number.
    LessNonNumbers(Token),
    /// `<=` with an operand that is no number.
    LessEqualNonNumbers(Token),
    /// A read of, or an assignment to, a name that is not bound.
    UndefinedVariable(Token),
    /// A read of a property that the instance and its class do not have.
    UndefinedProperty(Token),
    /// A call of a value that is neither a function nor a class.
    CallOnNonCallable(Token),
    /// A call with the wrong number of arguments: the closing parenthesis,
    /// the number of arguments passed, the number expected.
    WrongArity(Token, usize, usize),
    /// A property access on a value that is no instance.
    InvalidGetTarget(Token),
    /// A superclass expression whose value is no class.
    InvalidSuperclass(Token),
    /// Calls nested deeper than the interpreter's limit.
    StackOverflow(Token),
    /// More loop iterations than the interpreter's limit.
    IterationLimit,
    /// A fault inside the interpreter.
    InternalError(Fault),
}

/// Any error of the pipeline, by the stage that raised it.
#[derive(Debug)]
pub enum Error {
    Scanner(ScannerError),
    Parser(ParsingError),
    Runtime(RuntimeError),
}

/// The outcome of an evaluation, with the value taken by its view.
pub open spec fn value_outcome(r: Result<LoxValue, RuntimeError>) -> Result<
    LoxValueView,
    RuntimeError,
> {
    match r {
        Ok(value) => Ok(value@),
        Err(error) => Err(error),
    }
}

impl Clone for ScannerError {
    fn clone(&self) -> (r: ScannerError)
        ensures
            r == *self,
    {
        match self {
            ScannerError::ScannerError(line, message) => ScannerError::ScannerError(
                *line,
                message.clone(),
            ),
        }
    }
}

impl Clone for ParsingError {
    fn clone(&self) -> (r: ParsingError)
        ensures
            r == *self,
    {
        match self {
            ParsingError::UnexpectedTokenError(token, message) => {
                ParsingError::UnexpectedTokenError(token.clone(), message.clone())
            },
            ParsingError::UnexpectedEofError => ParsingError::UnexpectedEofError,
            ParsingError::InvalidAssignmentError(token) => ParsingError::InvalidAssignmentError(
                token.clone(),
            ),
            ParsingError::InternalError(message) => ParsingError::InternalError(message.clone()),
            ParsingError::TooManyParametersError => ParsingError::TooManyParametersError,
            ParsingError::TooManyArgumentsError => ParsingError::TooManyArgumentsError,
        }
    }
}

/// Any error of the pipeline as a mathematical value.
pub enum ErrorView {
    Scanner(ScannerErrorView),
    Parser(ParsingErrorView),
    Runtime(RuntimeError),
}

impl View for Error {
    type V = ErrorView;

    open spec fn view(&self) -> ErrorView {
        match *self {
            Error::Scanner(error) => ErrorView::Scanner(error@),
            Error::Parser(error) => ErrorView::Parser(error@),
            Error::Runtime(error) => ErrorView::Runtime(error),
        }
    }
}

} // verus!
