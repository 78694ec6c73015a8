//! The failures a frontend can run into while building or lowering a program.

use vstd::prelude::*;

verus! {

/// Why a builder or lowering call was refused.
#[derive(Debug, PartialEq, Eq, Clone, Copy, Hash, Structural)]
pub enum Error {
    /// A builder call was issued on a block whose terminator is already set.
    TerminatorAlreadySet,
    /// Operand or argument types disagree where they must be equal.
    TypeMismatch,
    /// The number of call arguments differs from the callee's input count.
    ArityMismatch,
    /// A branch target, a returned value or an operand belongs to a different
    /// function than the block being built.
    CrossFunctionReference,
    /// A parameter index is not below the function's input count.
    IndexOutOfRange,
    /// A comparison was offered to a block or reached lowering: comparisons
    /// are part of the data model, but nothing builds or lowers them.
    NotImplemented,
    /// A parameter placeholder was offered to a block as an instruction.
    ParameterBuilt,
    /// The target could not be initialised or the artifact could not be
    /// written.
    BackendFailure,
    /// A handle names an object that the context does not hold.
    InvalidHandle,
    /// A function without blocks reached lowering.
    NoBlocks,
    /// A block without a terminator reached lowering.
    NoTerminator,
    /// An instruction uses a value that no earlier instruction of the lowered
    /// function defines.
    UndefinedOperand,
}

impl Error {
    /// The text that describes this failure.
    pub open spec fn message_text(self) -> Seq<char> {
        match self {
            Error::TerminatorAlreadySet =>
                "pcb_assert: attempt to build instruction after a terminator"@,
            Error::TypeMismatch => "pcb_assert: lhs and rhs are not of the same type"@,
            Error::ArityMismatch =>
                "pcb_assert: attempt to call a function with the incorrect number of arguments"@,
            Error::CrossFunctionReference =>
                "pcb_assert: reference to an object from another function"@,
            Error::IndexOutOfRange => "pcb_assert: attempted to get nonexistent argument"@,
            Error::NotImplemented => "not implemented"@,
            Error::ParameterBuilt => "pcb_ice: Parameter should never be built"@,
            Error::BackendFailure => "pcb_ice: the backend could not produce the artifact"@,
            Error::InvalidHandle => "pcb_assert: handle does not belong to this context"@,
            Error::NoBlocks => "pcb_assert: function has no associated blocks"@,
            Error::NoTerminator => "pcb_assert: no terminator set"@,
            Error::UndefinedOperand => "pcb_ice: value used before it is defined"@,
        }
    }

    /// Returns the text that describes this failure.
    pub fn message(&self) -> (text: &'static str)
        ensures
            text@ == self.message_text(),
    {
        match self {
            Error::TerminatorAlreadySet =>
                "pcb_assert: attempt to build instruction after a terminator",
            Error::TypeMismatch => "pcb_assert: lhs and rhs are not of the same type",
            Error::ArityMismatch =>
                "pcb_assert: attempt to call a function with the incorrect number of arguments",
            Error::CrossFunctionReference =>
                "pcb_assert: reference to an object from another function",
            Error::IndexOutOfRange => "pcb_assert: attempted to get nonexistent argument",
            Error::NotImplemented => "not implemented",
            Error::ParameterBuilt => "pcb_ice: Parameter should never be built",
            Error::BackendFailure => "pcb_ice: the backend could not produce the artifact",
            Error::InvalidHandle => "pcb_assert: handle does not belong to this context",
            Error::NoBlocks => "pcb_assert: function has no associated blocks",
            Error::NoTerminator => "pcb_assert: no terminator set",
            Error::UndefinedOperand => "pcb_ice: value used before it is defined",
        }
    }
}

} // verus!
