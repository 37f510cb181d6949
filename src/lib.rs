/// Exact rational numbers, the numeric values of the language.
pub mod number;
/// The tokenizer: one token at a time from any position of the source.
pub mod tokens;
/// Parse errors and their line and column.
pub mod errors;
/// The parser state and the entry point for whole programs.
pub mod parser;
/// Expressions and their parsing.
pub mod expr;
/// Statements and their parsing.
pub mod statement;
/// The grammar as specification functions over the source text.
pub mod grammar;
/// Runtime values, the built-in classes and their operators.
pub mod value;
/// The clock and date formatting, through chrono.
pub mod clock;
/// Variable scopes.
pub mod env;
/// The evaluator and its specification.
pub mod vm;
