//! A tree-walking interpreter for the Lox scripting language, with every
//! stage of the pipeline (scanner, parser, resolver, evaluator) verified.
//!
//! Each stage comes as a pair: a module that says in mathematical
//! functions what the stage produces, and a module whose executable code
//! is verified to produce exactly that.
//!
//! | stage       | what it produces      | the code       |
//! |-------------|-----------------------|----------------|
//! | scanning    | `scanner::tokens_of`  | `scanner`      |
//! | parsing     | `grammar::program`    | `parser`       |
//! | resolution  | `resolver::stmt_resolved`, `resolver::stmt_fault` | `resolver` |
//! | evaluation  | `semantics::run_all`  | `interpreter`  |
//!
//! `api` chains the stages. `laws`, `scoping` and `growth` hold what is
//! proved of the runtime model as a whole: that reads find the value
//! assigned last, that the resolver's scopes and the interpreter's
//! environments stand for each other, that closures keep the environment
//! of their definition, that objects are equal only to themselves, and
//! that nothing a program does takes anything out of the heap.

pub mod api;
pub mod bignum;
pub mod callables;
pub mod environment;
pub mod errors;
pub mod expr;
pub mod grammar;
pub mod growth;
pub mod heap;
pub mod interpreter;
pub mod laws;
pub mod lox_class;
pub mod lox_instance;
pub mod messages;
pub mod number;
pub mod number_text;
pub mod parser;
pub mod resolver;
pub mod scanner;
pub mod scoping;
pub mod semantics;
pub mod stmt;
pub mod table;
pub mod text;
pub mod token;
pub mod value;

pub use api::{run, run_program, run_string, run_tokens};
