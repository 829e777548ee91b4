//! The text of every error, as the user reads it.

use vstd::prelude::*;
use vstd::string::StringExecFns;
use crate::environment::EnvironmentError;
use crate::errors::{Error, Fault, ParsingError, RuntimeError, ScannerError};
use crate::text::{decimal, decimal_string};
use crate::token::Token;
use crate::value::ValueError;

verus! {

/// A message with the line it refers to in front.
pub open spec fn located(line: usize, text: Seq<char>) -> Seq<char> {
    "[line "@ + decimal(line as nat) + "] "@ + text
}

/// A message with the line it refers to in front.
pub fn located_string(line: usize, text: &str) -> (r: String)
    ensures
        r@ == located(line, text@),
{
    let mut out = String::from_str("[line ");
    out.append(decimal_string(line as u64).as_str());
    out.append("] ");
    out.append(text);
    out
}

/// A message about a name, which it quotes.
pub open spec fn naming(before: Seq<char>, name: Seq<char>) -> Seq<char> {
    before + name + "`."@
}

/// A message about a name, which it quotes.
fn naming_string(before: &str, name: &str) -> (r: String)
    ensures
        r@ == naming(before@, name@),
{
    let mut out = String::from_str(before);
    out.append(name);
    out.append("`.");
    out
}

/// The text of a wrong-arity error: how many arguments the callee expects
/// and how many the call passed.
pub open spec fn arity_text(expected: usize, actual: usize) -> Seq<char> {
    "Expected "@ + decimal(expected as nat) + " arguments but got "@ + decimal(actual as nat)
        + "."@
}

/// The text of a wrong-arity error.
fn arity_string(expected: usize, actual: usize) -> (r: String)
    ensures
        r@ == arity_text(expected, actual),
{
    let mut out = String::from_str("Expected ");
    out.append(decimal_string(expected as u64).as_str());
    out.append(" arguments but got ");
    out.append(decimal_string(actual as u64).as_str());
    out.append(".");
    out
}

impl ValueError {
    /// The text of the error.
    pub open spec fn text(self) -> Seq<char> {
        match self {
            ValueError::TypeError => "TypeError"@,
            ValueError::DivideByZero => "DivideByZero"@,
        }
    }

    /// The text of the error.
    pub fn to_string(&self) -> (r: String)
        ensures
            r@ == self.text(),
    {
        String::from_str(self.description())
    }

    /// The name of the error's kind.
    pub fn description(&self) -> (r: &'static str)
        ensures
            r@ == self.text(),
    {
        match self {
            ValueError::TypeError => "TypeError",
            ValueError::DivideByZero => "DivideByZero",
        }
    }
}

impl EnvironmentError {
    /// The text of the error.
    pub open spec fn text(self) -> Seq<char> {
        match self {
            EnvironmentError::UndefinedVariable(name) => "Undefined variable "@ + name@,
        }
    }

    /// The text of the error.
    pub fn to_string(&self) -> (r: String)
        ensures
            r@ == self.text(),
    {
        match self {
            EnvironmentError::UndefinedVariable(name) => {
                let mut out = String::from_str("Undefined variable ");
                out.append(name.as_str());
                out
            },
        }
    }

    /// The name of the error's kind.
    pub fn description(&self) -> (r: &'static str)
        ensures
            r@ == "UndefinedVariable"@,
    {
        "UndefinedVariable"
    }
}

impl ScannerError {
    /// The text of the error.
    pub open spec fn text(self) -> Seq<char> {
        match self {
            ScannerError::ScannerError(line, message) => located(
                line,
                "ScannerError: "@ + message@,
            ),
        }
    }

    /// The text of the error.
    pub fn to_string(&self) -> (r: String)
        ensures
            r@ == self.text(),
    {
        match self {
            ScannerError::ScannerError(line, message) => {
                let mut text = String::from_str("ScannerError: ");
                text.append(message.as_str());
                located_string(*line, text.as_str())
            },
        }
    }

    /// The name of the error's kind.
    pub fn description(&self) -> (r: &'static str)
        ensures
            r@ == "ScannerError"@,
    {
        "ScannerError"
    }
}

impl ParsingError {
    /// The text of the error.
    pub open spec fn text(self) -> Seq<char> {
        match self {
            ParsingError::UnexpectedTokenError(token, message) => located(
                token.line,
                "UnexpectedTokenError: "@ + message@ + " "@ + token.lexeme@,
            ),
            ParsingError::UnexpectedEofError => "Unexpected end of input"@,
            ParsingError::InvalidAssignmentError(token) => located(
                token.line,
                "Invalid assignment target"@,
            ),
            ParsingError::InternalError(message) => "Internal error: "@ + message@,
            ParsingError::TooManyParametersError => "Cannot have more than 8 parameters."@,
            ParsingError::TooManyArgumentsError => "Cannot have more than 8 arguments."@,
        }
    }

    /// The text of the error.
    pub fn to_string(&self) -> (r: String)
        ensures
            r@ == self.text(),
    {
        match self {
            ParsingError::UnexpectedTokenError(token, message) => {
                let mut text = String::from_str("UnexpectedTokenError: ");
                text.append(message.as_str());
                text.append(" ");
                text.append(token.lexeme.as_str());
                located_string(token.line, text.as_str())
            },
            ParsingError::UnexpectedEofError => String::from_str("Unexpected end of input"),
            ParsingError::InvalidAssignmentError(token) => located_string(
                token.line,
                "Invalid assignment target",
            ),
            ParsingError::InternalError(message) => {
                let mut text = String::from_str("Internal error: ");
                text.append(message.as_str());
                text
            },
            ParsingError::TooManyParametersError => String::from_str(
                "Cannot have more than 8 parameters.",
            ),
            ParsingError::TooManyArgumentsError => String::from_str(
                "Cannot have more than 8 arguments.",
            ),
        }
    }

    /// The name of the error's kind.
    pub open spec fn kind(self) -> Seq<char> {
        match self {
            ParsingError::UnexpectedTokenError(_, _) => "UnexpectedTokenError"@,
            ParsingError::UnexpectedEofError => "UnexpectedEofError"@,
            ParsingError::InvalidAssignmentError(_) => "InvalidAssignmentError"@,
            ParsingError::InternalError(_) => "InternalError"@,
            ParsingError::TooManyParametersError => "TooManyParametersError"@,
            ParsingError::TooManyArgumentsError => "TooManyArgumentsError"@,
        }
    }

    /// The name of the error's kind.
    pub fn description(&self) -> (r: &'static str)
        ensures
            r@ == self.kind(),
    {
        match self {
            ParsingError::UnexpectedTokenError(_, _) => "UnexpectedTokenError",
            ParsingError::UnexpectedEofError => "UnexpectedEofError",
            ParsingError::InvalidAssignmentError(_) => "InvalidAssignmentError",
            ParsingError::InternalError(_) => "InternalError",
            ParsingError::TooManyParametersError => "TooManyParametersError",
            ParsingError::TooManyArgumentsError => "TooManyArgumentsError",
        }
    }
}

impl Fault {
    /// What went wrong inside the interpreter.
    pub open spec fn text(self) -> Seq<char> {
        match self {
            Fault::InvalidLiteral => "Invalid literal - no value"@,
            Fault::InvalidCall => "Invalid call"@,
            Fault::InvalidUnaryOperator => "Invalid unary operator"@,
            Fault::InvalidBinaryOperator => "Invalid binary operator"@,
            Fault::DanglingEnvironment => "Couldn't find the environment"@,
            Fault::DanglingFunction => "Couldn't find the function"@,
            Fault::DanglingClass => "Couldn't find the class"@,
            Fault::DanglingInstance => "Couldn't find the instance"@,
            Fault::UnresolvedSuper => "Couldn't find distance to super reference"@,
            Fault::MissingSuper => "Couldn't find `super` when interpreting"@,
            Fault::MissingThis => "Couldn't find reference to `this`"@,
            Fault::InvalidMethod => "Can't get non-func as method from an instance"@,
        }
    }

    /// What went wrong inside the interpreter.
    pub fn description(&self) -> (r: &'static str)
        ensures
            r@ == self.text(),
    {
        match self {
            Fault::InvalidLiteral => "Invalid literal - no value",
            Fault::InvalidCall => "Invalid call",
            Fault::InvalidUnaryOperator => "Invalid unary operator",
            Fault::InvalidBinaryOperator => "Invalid binary operator",
            Fault::DanglingEnvironment => "Couldn't find the environment",
            Fault::DanglingFunction => "Couldn't find the function",
            Fault::DanglingClass => "Couldn't find the class",
            Fault::DanglingInstance => "Couldn't find the instance",
            Fault::UnresolvedSuper => "Couldn't find distance to super reference",
            Fault::MissingSuper => "Couldn't find `super` when interpreting",
            Fault::MissingThis => "Couldn't find reference to `this`",
            Fault::InvalidMethod => "Can't get non-func as method from an instance",
        }
    }
}

/// The message of an error that refers to one token of the program.
pub open spec fn about(token: Token, text: Seq<char>) -> Seq<char> {
    located(token.line, text)
}

impl RuntimeError {
    /// The text of the error.
    pub open spec fn text(self) -> Seq<char> {
        match self {
            RuntimeError::ReturnAtTopLevel(token) => about(
                token,
                "UnexpectedTokenError: Cannot use `return` at the top level."@,
            ),
            RuntimeError::ReturnInInitializer(token) => about(
                token,
                "UnexpectedTokenError: Cannot use `return` on an initializer."@,
            ),
            RuntimeError::ThisOutsideMethod(token) => about(
                token,
                "UnexpectedTokenError: Cannot use `this` outside of a method."@,
            ),
            RuntimeError::SuperOutsideMethod(token) => about(
                token,
                "UnexpectedTokenError: Cannot use `super` outside of a method."@,
            ),
            RuntimeError::SuperWithoutSuperclass(token) => about(
                token,
                "UnexpectedTokenError: Cannot use `super` without a superclass."@,
            ),
            RuntimeError::NegateNonNumberError(token) => about(
                token,
                "Cannot negate a non-numerical value"@,
            ),
            RuntimeError::SubtractNonNumbers(token) => about(
                token,
                "Both sides of a subtraction must be numbers"@,
            ),
            RuntimeError::DivideNonNumbers(token) => about(
                token,
                "Both sides of a division must be numbers"@,
            ),
            RuntimeError::DivideByZeroError(token) => about(token, "Cannot divide by zero"@),
            RuntimeError::MultiplyNonNumbers(token) => about(
                token,
                "Both sides of a multiplication must be numbers"@,
            ),
            RuntimeError::PlusTypeError(token) => about(
                token,
                "Both sides of an addition must be either strings or numbers"@,
            ),
            RuntimeError::GreaterNonNumbers(token) => about(
                token,
                "Both sides of a greater than comparison must be numbers"@,
            ),
            RuntimeError::GreaterEqualNonNumbers(token) => about(
                token,
                "Both sides of a greater or equal comparison must be numbers"@,
            ),
            RuntimeError::LessNonNumbers(token) => about(
                token,
                "Both sides of a less than comparison must be numbers"@,
            ),
            RuntimeError::LessEqualNonNumbers(token) => about(
                token,
                "Both sides of a less or equal comparison must be numbers"@,
            ),
            RuntimeError::UndefinedVariable(token) => about(
                token,
                naming("Undefined variable `"@, token.lexeme@),
            ),
            RuntimeError::UndefinedProperty(token) => about(
                token,
                naming("Undefined property `"@, token.lexeme@),
            ),
            RuntimeError::CallOnNonCallable(token) => about(
                token,
                "Can only call functions and classes."@,
            ),
            RuntimeError::WrongArity(token, actual, expected) => about(
                token,
                arity_text(expected, actual),
            ),
            RuntimeError::InvalidGetTarget(token) => about(
                token,
                "Only instances have properties."@,
            ),
            RuntimeError::InvalidSuperclass(token) => about(token, "Superclass must be a class."@),
            RuntimeError::StackOverflow(token) => about(token, "Stack overflow."@),
            RuntimeError::IterationLimit => "Iteration limit reached."@,
            RuntimeError::InternalError(fault) => "Internal interpreter error: "@ + fault.text(),
        }
    }

    /// The text of the error.
    pub fn to_string(&self) -> (r: String)
        ensures
            r@ == self.text(),
    {
        match self {
            RuntimeError::ReturnAtTopLevel(token) => located_string(
                token.line,
                "UnexpectedTokenError: Cannot use `return` at the top level.",
            ),
            RuntimeError::ReturnInInitializer(token) => located_string(
                token.line,
                "UnexpectedTokenError: Cannot use `return` on an initializer.",
            ),
            RuntimeError::ThisOutsideMethod(token) => located_string(
                token.line,
                "UnexpectedTokenError: Cannot use `this` outside of a method.",
            ),
            RuntimeError::SuperOutsideMethod(token) => located_string(
                token.line,
                "UnexpectedTokenError: Cannot use `super` outside of a method.",
            ),
            RuntimeError::SuperWithoutSuperclass(token) => located_string(
                token.line,
                "UnexpectedTokenError: Cannot use `super` without a superclass.",
            ),
            RuntimeError::NegateNonNumberError(token) => located_string(
                token.line,
                "Cannot negate a non-numerical value",
            ),
            RuntimeError::SubtractNonNumbers(token) => located_string(
                token.line,
                "Both sides of a subtraction must be numbers",
            ),
            RuntimeError::DivideNonNumbers(token) => located_string(
                token.line,
                "Both sides of a division must be numbers",
            ),
            RuntimeError::DivideByZeroError(token) => located_string(
                token.line,
                "Cannot divide by zero",
            ),
            RuntimeError::MultiplyNonNumbers(token) => located_string(
                token.line,
                "Both sides of a multiplication must be numbers",
            ),
            RuntimeError::PlusTypeError(token) => located_string(
                token.line,
                "Both sides of an addition must be either strings or numbers",
            ),
            RuntimeError::GreaterNonNumbers(token) => located_string(
                token.line,
                "Both sides of a greater than comparison must be numbers",
            ),
            RuntimeError::GreaterEqualNonNumbers(token) => located_string(
                token.line,
                "Both sides of a greater or equal comparison must be numbers",
            ),
            RuntimeError::LessNonNumbers(token) => located_string(
                token.line,
                "Both sides of a less than comparison must be numbers",
            ),
            RuntimeError::LessEqualNonNumbers(token) => located_string(
                token.line,
                "Both sides of a less or equal comparison must be numbers",
            ),
            RuntimeError::UndefinedVariable(token) => located_string(
                token.line,
                naming_string("Undefined variable `", token.lexeme.as_str()).as_str(),
            ),
            RuntimeError::UndefinedProperty(token) => located_string(
                token.line,
                naming_string("Undefined property `", token.lexeme.as_str()).as_str(),
            ),
            RuntimeError::CallOnNonCallable(token) => located_string(
                token.line,
                "Can only call functions and classes.",
            ),
            RuntimeError::WrongArity(token, actual, expected) => located_string(
                token.line,
                arity_string(*expected, *actual).as_str(),
            ),
            RuntimeError::InvalidGetTarget(token) => located_string(
                token.line,
                "Only instances have properties.",
            ),
            RuntimeError::InvalidSuperclass(token) => located_string(
                token.line,
                "Superclass must be a class.",
            ),
            RuntimeError::StackOverflow(token) => located_string(token.line, "Stack overflow."),
            RuntimeError::IterationLimit => String::from_str("Iteration limit reached."),
            RuntimeError::InternalError(fault) => {
                let mut text = String::from_str("Internal interpreter error: ");
                text.append(fault.description());
                text
            },
        }
    }

    /// The name of the error's kind.
    pub open spec fn kind(self) -> Seq<char> {
        match self {
            RuntimeError::ReturnAtTopLevel(_) => "ReturnAtTopLevel"@,
            RuntimeError::ReturnInInitializer(_) => "ReturnInInitializer"@,
            RuntimeError::ThisOutsideMethod(_) => "ThisOutsideMethod"@,
            RuntimeError::SuperOutsideMethod(_) => "SuperOutsideMethod"@,
            RuntimeError::SuperWithoutSuperclass(_) => "SuperWithoutSuperclass"@,
            RuntimeError::NegateNonNumberError(_) => "NegateNonNumberError"@,
            RuntimeError::SubtractNonNumbers(_) => "SubtractNonNumbers"@,
            RuntimeError::DivideNonNumbers(_) => "DivideNonNumbers"@,
            RuntimeError::DivideByZeroError(_) => "DivideByZeroError"@,
            RuntimeError::MultiplyNonNumbers(_) => "MultiplyNonNumbers"@,
            RuntimeError::PlusTypeError(_) => "PlusTypeError"@,
            RuntimeError::GreaterNonNumbers(_) => "GreaterNonNumbers"@,
            RuntimeError::GreaterEqualNonNumbers(_) => "GreaterEqualNonNumbers"@,
            RuntimeError::LessNonNumbers(_) => "LessNonNumbers"@,
            RuntimeError::LessEqualNonNumbers(_) => "LessEqualNonNumbers"@,
            RuntimeError::UndefinedVariable(_) => "UndefinedVariable"@,
            RuntimeError::UndefinedProperty(_) => "UndefinedProperty"@,
            RuntimeError::CallOnNonCallable(_) => "CallOnNonCallable"@,
            RuntimeError::WrongArity(_, _, _) => "WrongArity"@,
            RuntimeError::InvalidGetTarget(_) => "InvalidGetTarget"@,
            RuntimeError::InvalidSuperclass(_) => "InvalidSuperclass"@,
            RuntimeError::StackOverflow(_) => "StackOverflow"@,
            RuntimeError::IterationLimit => "IterationLimit"@,
            RuntimeError::InternalError(_) => "InternalError"@,
        }
    }

    /// The name of the error's kind.
    pub fn description(&self) -> (r: &'static str)
        ensures
            r@ == self.kind(),
    {
        match self {
            RuntimeError::ReturnAtTopLevel(_) => "ReturnAtTopLevel",
            RuntimeError::ReturnInInitializer(_) => "ReturnInInitializer",
            RuntimeError::ThisOutsideMethod(_) => "ThisOutsideMethod",
            RuntimeError::SuperOutsideMethod(_) => "SuperOutsideMethod",
            RuntimeError::SuperWithoutSuperclass(_) => "SuperWithoutSuperclass",
            RuntimeError::NegateNonNumberError(_) => "NegateNonNumberError",
            RuntimeError::SubtractNonNumbers(_) => "SubtractNonNumbers",
            RuntimeError::DivideNonNumbers(_) => "DivideNonNumbers",
            RuntimeError::DivideByZeroError(_) => "DivideByZeroError",
            RuntimeError::MultiplyNonNumbers(_) => "MultiplyNonNumbers",
            RuntimeError::PlusTypeError(_) => "PlusTypeError",
            RuntimeError::GreaterNonNumbers(_) => "GreaterNonNumbers",
            RuntimeError::GreaterEqualNonNumbers(_) => "GreaterEqualNonNumbers",
            RuntimeError::LessNonNumbers(_) => "LessNonNumbers",
            RuntimeError::LessEqualNonNumbers(_) => "LessEqualNonNumbers",
            RuntimeError::UndefinedVariable(_) => "UndefinedVariable",
            RuntimeError::UndefinedProperty(_) => "UndefinedProperty",
            RuntimeError::CallOnNonCallable(_) => "CallOnNonCallable",
            RuntimeError::WrongArity(_, _, _) => "WrongArity",
            RuntimeError::InvalidGetTarget(_) => "InvalidGetTarget",
            RuntimeError::InvalidSuperclass(_) => "InvalidSuperclass",
            RuntimeError::StackOverflow(_) => "StackOverflow",
            RuntimeError::IterationLimit => "IterationLimit",
            RuntimeError::InternalError(_) => "InternalError",
        }
    }
}

impl Error {
    /// The text of the error: that of the stage's own error.
    pub open spec fn text(self) -> Seq<char> {
        match self {
            Error::Scanner(error) => error.text(),
            Error::Parser(error) => error.text(),
            Error::Runtime(error) => error.text(),
        }
    }

    /// The text of the error.
    pub fn to_string(&self) -> (r: String)
        ensures
            r@ == self.text(),
    {
        match self {
            Error::Scanner(error) => error.to_string(),
            Error::Parser(error) => error.to_string(),
            Error::Runtime(error) => error.to_string(),
        }
    }

    /// The name of the error's kind.
    pub open spec fn kind(self) -> Seq<char> {
        match self {
            Error::Scanner(_) => "ScannerError"@,
            Error::Parser(error) => error.kind(),
            Error::Runtime(error) => error.kind(),
        }
    }

    /// The name of the error's kind.
    pub fn description(&self) -> (r: &'static str)
        ensures
            r@ == self.kind(),
    {
        match self {
            Error::Scanner(error) => error.description(),
            Error::Parser(error) => error.description(),
            Error::Runtime(error) => error.description(),
        }
    }
}

} // verus!
