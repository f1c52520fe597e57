//! The Berg compiler front end: byte scanning, tokenizing, source positions,
//! the AST and the reconstruction of source text from it, the type checker,
//! error codes and messages, and the block state machine of the evaluator.

pub mod ast;
pub mod block;
pub mod char_data;
pub mod checker;
pub mod compile_errors;
pub mod error;
pub mod expect;
pub mod formatting;
pub mod identifiers;
pub mod index;
pub mod interner;
pub mod message;
pub mod position_order;
pub mod rational;
pub mod scanner;
pub mod source_reconstruction;
pub mod syntax;
pub mod syntax_expression;
pub mod text;
pub mod token;
pub mod tokenizer;
