//! What holds of the library whatever the input: laws of the conversion to
//! postfix notation, of the evaluation, of the integers, and of reading and
//! printing.

pub mod conversion;
pub mod evaluation;
pub mod numbers;
pub mod reading;
