//! A table-driven Pratt parser.
//!
//! * [`tokenizer`] cuts an input into typed tokens, by the regular
//!   expressions of a lexicon that [`matcher`] runs.
//! * [`prattparser`] is the engine: it climbs a precedence table and asks
//!   a grammar what each token means. [`config`] checks a configuration
//!   before a parser is made of it, and [`tables`] holds the lookups.
//! * [`interpreter`] is the parser of an expression language over JSON-like
//!   values, as far as it goes: decimal numbers of [`number`] under signs.
//! * [`calculator`] is a second grammar, whole-number arithmetic, with
//!   operators on several levels, brackets, and the laws of precedence
//!   proved of it.
//! * [`errors`] holds the failures, and [`text`] the small things done to
//!   strings.

pub mod calculator;
pub mod config;
pub mod errors;
pub mod interpreter;
pub mod matcher;
pub mod number;
pub mod prattparser;
pub mod tables;
pub mod text;
pub mod tokenizer;
