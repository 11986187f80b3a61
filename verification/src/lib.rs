//! A minimal S-expression language front end: a tokenizer, a recursive-descent
//! parser that turns tokens into an expression tree, and an evaluator that
//! walks the tree and dispatches to built-in numeric and boolean operations
//! held in an environment.
//!
//! Numbers are carried as opaque 64-bit scalars (the raw bits of the host's
//! 64-bit floating-point values). The interpreter never interprets those bits
//! itself: every arithmetic, comparison and trigonometric step, as well as
//! turning a token into a number and a number back into text, is delegated to
//! a [`host::NumHost`] supplied by the embedding program. Everything else —
//! tokenization, parsing, classification, environment lookup, argument
//! selection and dispatch — is verified here.

pub mod env;
pub mod eval;
pub mod exp;
pub mod host;
pub mod parser;
pub mod tokenizer;

pub use env::{create_default_env, Builtin, LisperEnv};
pub use eval::eval;
pub use exp::{LisperErr, LisperExp};
pub use parser::{parse, parse_token};
pub use tokenizer::tokenize;
