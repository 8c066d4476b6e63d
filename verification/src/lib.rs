//! A tree-walking interpreter for Schwift, a small imperative scripting
//! language.
//!
//! A program is a sequence of statements on lines of their own:
//!
//! ```text
//! names on a cob
//! show me what you got "name?"
//! portal gun name
//! names assimilate name
//! if names squanch == 1 :<
//!     show me what you got names[0]
//! >: else :<
//!     show me what you got "none"
//! >:
//! ```
//!
//! `grammar` parses the text of a program into statements, by the rules that
//! `syntax` defines on sequences of characters. `state` executes statements
//! against the state of a program, and `machine` does so step by step, for a
//! caller that reads and writes while the program runs; what a statement
//! does is defined in `semantics`, on mathematical models of values,
//! expressions, statements and states. `laws` holds what is proved of every
//! program.
//!
//! Values are integers, strings, booleans and lists. Names live in one flat
//! table. Every run ends: a state holds a budget of loop iterations, and a
//! loop that finds it spent fails.
pub mod error;
pub mod expression;
pub mod grammar;
pub mod laws;
pub mod machine;
pub mod scanner;
pub mod semantics;
pub mod state;
pub mod statement;
pub mod syntax;
pub mod text;
pub mod value;
