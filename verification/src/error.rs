use vstd::prelude::*;

verus! {

/// The ways a source line is rejected: a first token that names no
/// instruction, an operand whose value does not fit its bit field, and an
/// operand whose shape is wrong (a missing digit, a non-decimal immediate,
/// a memory literal with fewer than two characters).
#[derive(Clone, Copy, Debug, PartialEq, Eq, Structural)]
pub enum AsmError {
    UnknownMnemonic,
    OperandOutOfRange,
    MalformedOperand,
}

} // verus!
