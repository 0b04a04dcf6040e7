//! A verified assembler for the Pricssor1 16-bit instruction set.
//!
//! Each line of source text names one instruction; the assembler turns it
//! into a 16-bit machine word and renders that word as four lowercase
//! hexadecimal digits.  The spec-level encoding table lives in [`model`];
//! the executable functions are proved against it.

pub mod bits;
pub mod dispatch;
pub mod encode;
pub mod error;
pub mod laws;
pub mod model;
pub mod operand;
