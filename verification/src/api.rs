//! The entry points: source text in, what the program printed or the
//! errors of the run out.

use vstd::prelude::*;
use vstd::string::StringExecFns;
use crate::errors::{
    Error, ErrorView, ParsingError, ParsingErrorView, RuntimeError, ScannerError,
    ScannerErrorView,
};
use crate::grammar::{program, terminated};
use crate::interpreter::Interpreter;
use crate::parser::{parsing_errors_view, Parser};
use crate::resolver::{stmts_fault, stmts_resolved, Resolver};
use crate::scanner::{end_token, errors_of, errors_view, tokens_of, tokens_view, Scanner};
use crate::semantics::{is_prefix, run_all, InterpreterView, Stop};
use crate::stmt::{list_tidy, stmt_views, Stmt};
use crate::token::Token;

verus! {

/// The views of a list of errors.
pub open spec fn error_views(errors: Seq<Error>) -> Seq<ErrorView> {
    Seq::new(errors.len(), |i: int| errors[i]@)
}

/// A list of lexical errors as errors of the pipeline.
pub open spec fn as_scanner_errors(errors: Seq<ScannerErrorView>) -> Seq<ErrorView> {
    Seq::new(errors.len(), |i: int| ErrorView::Scanner(errors[i]))
}

/// A list of syntax errors as errors of the pipeline.
pub open spec fn as_parser_errors(errors: Seq<ParsingErrorView>) -> Seq<ErrorView> {
    Seq::new(errors.len(), |i: int| ErrorView::Parser(errors[i]))
}

/// The outcome of a run, by views.
pub open spec fn outcome_view(r: Result<(), Vec<Error>>) -> Result<(), Seq<ErrorView>> {
    match r {
        Ok(()) => Ok(()),
        Err(errors) => Err(error_views(errors@)),
    }
}

/// Whether an interpreter that went from `before` to `after` with
/// `result` ran a resolved program as its meaning says, given the readings
/// of the clock that it took: the statements were executed in order, and
/// the run failed with the first runtime error or succeeded.
pub open spec fn executed(
    before: InterpreterView,
    resolved: Vec<Stmt>,
    after: InterpreterView,
    result: Result<(), Seq<ErrorView>>,
) -> bool {
    let expected = run_all(before.with_clock(after.readings), resolved, 0);
    &&& expected.state == after.with_clock(after.readings)
    &&& match result {
        Ok(()) => expected.result == Ok::<Option<crate::value::LoxValueView>, Stop>(None),
        Err(errors) => errors.len() == 1 && match errors[0] {
            ErrorView::Runtime(error) => expected.result == Err::<
                Option<crate::value::LoxValueView>,
                Stop,
            >(Stop::Error(error)),
            _ => false,
        },
    }
}

/// Whether an interpreter that went from `before` to `after` with
/// `result` ran a parsed program as the pipeline asks: a misuse that the
/// resolver finds is the one error of the run and leaves the interpreter
/// as it was; otherwise the resolved program, which is tidy where the
/// parsed one is, is executed.
pub open spec fn ran_program(
    before: InterpreterView,
    ast: Vec<Stmt>,
    after: InterpreterView,
    result: Result<(), Seq<ErrorView>>,
) -> bool {
    match stmts_fault(ast, 0, None, None) {
        Some(error) => result == Err::<(), Seq<ErrorView>>(seq![ErrorView::Runtime(error)])
            && after == before,
        None => exists|resolved: Vec<Stmt>| #[trigger]
            stmts_resolved(ast, resolved, Seq::empty()) && (list_tidy(ast) ==> list_tidy(
                resolved,
            )) && executed(before, resolved, after, result),
    }
}

/// Whether an interpreter that went from `before` to `after` with
/// `result` ran a token list as the pipeline asks: syntax errors are all
/// reported and leave the interpreter as it was; otherwise the program
/// that the tokens spell, which is tidy, is run.
pub open spec fn ran_tokens(
    before: InterpreterView,
    tokens: Seq<Token>,
    after: InterpreterView,
    result: Result<(), Seq<ErrorView>>,
) -> bool {
    match program(tokens) {
        Err(errors) => result == Err::<(), Seq<ErrorView>>(as_parser_errors(errors)) && after
            == before,
        Ok(statements) => exists|ast: Vec<Stmt>| #[trigger]
            stmt_views(ast, ast@.len()) == statements && list_tidy(ast) && ran_program(
                before,
                ast,
                after,
                result,
            ),
    }
}

/// Whether an interpreter that went from `before` to `after` with
/// `result` ran a piece of source text as the pipeline asks: lexical
/// errors are all reported and leave the interpreter as it was; otherwise
/// the tokens of the text are run.
pub open spec fn ran_source(
    before: InterpreterView,
    source: Seq<char>,
    after: InterpreterView,
    result: Result<(), Seq<ErrorView>>,
) -> bool {
    if errors_of(source).len() > 0 {
        result == Err::<(), Seq<ErrorView>>(as_scanner_errors(errors_of(source))) && after
            == before
    } else {
        exists|tokens: Seq<Token>| #[trigger]
            tokens_view(tokens) == tokens_of(source) && ran_tokens(
                before,
                tokens,
                after,
                result,
            )
    }
}

/// The texts of a list of errors, one per line.
pub open spec fn error_lines(errors: Seq<Error>, upto: nat) -> Seq<char>
    decreases upto,
{
    if upto == 0 || upto > errors.len() {
        Seq::empty()
    } else if upto == 1 {
        errors[0].text()
    } else {
        error_lines(errors, (upto - 1) as nat) + "\n"@ + errors[upto - 1].text()
    }
}

/// The lexical errors as errors of the pipeline.
fn scanner_failures(errors: &Vec<ScannerError>) -> (r: Vec<Error>)
    ensures
        error_views(r@) == as_scanner_errors(errors_view(errors@)),
{
    let mut out: Vec<Error> = Vec::new();
    let mut i: usize = 0;
    while i < errors.len()
        invariant
            i <= errors@.len(),
            out@.len() == i,
            forall|j: int| 0 <= j < i ==> (#[trigger] out@[j])@ == ErrorView::Scanner(errors@[j]@),
        decreases errors@.len() - i,
    {
        out.push(Error::Scanner(errors[i].clone()));
        i += 1;
    }
    assert(error_views(out@) =~= as_scanner_errors(errors_view(errors@)));
    out
}

/// The syntax errors as errors of the pipeline.
fn parser_failures(errors: &Vec<ParsingError>) -> (r: Vec<Error>)
    ensures
        error_views(r@) == as_parser_errors(parsing_errors_view(errors@)),
{
    let mut out: Vec<Error> = Vec::new();
    let mut i: usize = 0;
    while i < errors.len()
        invariant
            i <= errors@.len(),
            out@.len() == i,
            forall|j: int| 0 <= j < i ==> (#[trigger] out@[j])@ == ErrorView::Parser(errors@[j]@),
        decreases errors@.len() - i,
    {
        out.push(Error::Parser(errors[i].clone()));
        i += 1;
    }
    assert(error_views(out@) =~= as_parser_errors(parsing_errors_view(errors@)));
    out
}

/// The one error of a run that a runtime error ended.
fn runtime_failure(error: RuntimeError) -> (r: Vec<Error>)
    ensures
        error_views(r@) == seq![ErrorView::Runtime(error)],
{
    let mut out: Vec<Error> = Vec::new();
    out.push(Error::Runtime(error));
    assert(error_views(out@) =~= seq![ErrorView::Runtime(error)]);
    out
}

/// Resolves a parsed program and runs it on the interpreter.
pub fn run_program(interpreter: &mut Interpreter, ast: Vec<Stmt>) -> (r: Result<(), Vec<Error>>)
    ensures
        ran_program(old(interpreter)@, ast, final(interpreter)@, outcome_view(r)),
{
    let mut resolver = Resolver::new();
    let mut resolved = ast;
    match resolver.resolve_ast(&mut resolved) {
        Ok(()) => {},
        Err(error) => {
            return Err(runtime_failure(error));
        },
    }
    let ghost program = resolved;
    let r = match interpreter.interpret(resolved) {
        Some(error) => Err(runtime_failure(error)),
        None => Ok(()),
    };
    proof {
        assert(stmts_resolved(ast, program, Seq::empty()));
        assert(is_prefix(interpreter@.readings, interpreter@.readings));
        assert(executed(old(interpreter)@, program, interpreter@, outcome_view(r)));
    }
    r
}

/// Parses a token list, which must end with the end token, and runs the
/// program on the interpreter.
pub fn run_tokens(interpreter: &mut Interpreter, tokens: Vec<Token>) -> (r: Result<
    (),
    Vec<Error>,
>)
    requires
        terminated(tokens@),
    ensures
        ran_tokens(old(interpreter)@, tokens@, final(interpreter)@, outcome_view(r)),
{
    let parser = Parser::new(tokens);
    match parser.ast() {
        Ok(ast) => {
            let ghost parsed = ast;
            let r = run_program(interpreter, ast);
            proof {
                assert(stmt_views(parsed, parsed@.len()) == program(tokens@)->Ok_0);
            }
            r
        },
        Err(errors) => Err(parser_failures(&errors)),
    }
}

/// Runs a piece of source text on the interpreter: scans, parses,
/// resolves and executes it. The bindings and objects that the program
/// makes stay in the interpreter for the next run.
pub fn run(interpreter: &mut Interpreter, code: String) -> (r: Result<(), Vec<Error>>)
    ensures
        ran_source(old(interpreter)@, code@, final(interpreter)@, outcome_view(r)),
{
    let scanner = Scanner::new(code);
    let (tokens, scanner_errors) = scanner.scan_tokens();
    if scanner_errors.len() > 0 {
        return Err(scanner_failures(&scanner_errors));
    }
    proof {
        let views = tokens_view(tokens@);
        assert(views.last() == end_token(views.last().line));
        assert(tokens@.last()@ == views.last());
    }
    let ghost scanned = tokens@;
    let r = run_tokens(interpreter, tokens);
    proof {
        assert(tokens_view(scanned) == tokens_of(code@));
    }
    r
}

/// The errors' texts, one per line.
fn render_errors(errors: &Vec<Error>) -> (r: String)
    ensures
        r@ == error_lines(errors@, errors@.len()),
{
    let mut out = String::new();
    let mut i: usize = 0;
    while i < errors.len()
        invariant
            i <= errors@.len(),
            out@ == error_lines(errors@, i as nat),
        decreases errors@.len() - i,
    {
        if i > 0 {
            out.append("\n");
        }
        out.append(errors[i].to_string().as_str());
        i += 1;
        proof {
            if i == 1 {
                assert(out@ =~= errors@[0].text());
            }
        }
    }
    out
}

/// The outcome of a run that failed with the errors given, or succeeded.
pub open spec fn failures(errors: Option<Seq<Error>>) -> Result<(), Seq<ErrorView>> {
    match errors {
        None => Ok(()),
        Some(errors) => Err(error_views(errors)),
    }
}

/// What `run_string` makes of the outcome of a run: what the program
/// printed where the run succeeded, else the texts of the errors.
pub open spec fn rendered(after: InterpreterView, errors: Option<Seq<Error>>) -> Seq<char> {
    match errors {
        None => after.output,
        Some(errors) => error_lines(errors, errors.len()),
    }
}

/// Runs a program on a fresh interpreter and returns what it printed, or
/// where the run failed the texts of its errors, one per line.
pub fn run_string(code: String) -> (r: String)
    ensures
        exists|after: InterpreterView, errors: Option<Seq<Error>>| #[trigger]
            ran_source(crate::semantics::initial_state(), code@, after, failures(errors)) && r@
                == rendered(after, errors),
{
    let mut interpreter = Interpreter::new();
    match run(&mut interpreter, code) {
        Ok(()) => {
            let r = interpreter.take_output();
            proof {
                assert(ran_source(
                    crate::semantics::initial_state(),
                    code@,
                    with_output(interpreter@, r@),
                    failures(None),
                ));
                assert(r@ == rendered(with_output(interpreter@, r@), None));
            }
            r
        },
        Err(errors) => {
            let r = render_errors(&errors);
            proof {
                assert(ran_source(
                    crate::semantics::initial_state(),
                    code@,
                    interpreter@,
                    failures(Some(errors@)),
                ));
                assert(r@ == rendered(interpreter@, Some(errors@)));
            }
            r
        },
    }
}

/// The state of an interpreter with the output given.
pub open spec fn with_output(after: InterpreterView, output: Seq<char>) -> InterpreterView {
    InterpreterView { output, ..after }
}

} // verus!
