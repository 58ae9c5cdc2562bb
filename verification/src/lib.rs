//! Arithmetic expressions over exact integers and binary64 decimals: lexing,
//! conversion to postfix notation, and evaluation against a variable
//! environment.
//!
//! The crate itself never computes with floating point. A decimal is carried
//! as the bit pattern of a binary64 value, and whatever has to be computed on
//! decimals is handed to the caller as an [`evaluation::DecimalTask`].

pub mod environment;
pub mod evaluation;
pub mod integer;
pub mod laws;
pub mod literal;
pub mod parser;
pub mod rpn_resolver;
pub mod token;
