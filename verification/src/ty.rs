//! Structural type descriptors and function signatures.

use vstd::prelude::*;
use crate::handle;

verus! {

/// A structural value type: an integer of a given bit width, or a boolean.
#[derive(Debug, PartialEq, Eq, Hash, Clone, Copy, Structural)]
pub enum Type {
    Integer(u32),
    Bool,
}

impl Type {
    /// The bit width of an integer type.
    pub fn int_size(&self) -> (size: u32)
        requires
            self is Integer,
        ensures
            *self == Type::Integer(size),
    {
        match *self {
            Type::Integer(size) => size,
            Type::Bool => 0,
        }
    }

    /// The number of bits a value of this type occupies: the width of an
    /// integer, one bit for a boolean.
    pub open spec fn bits(self) -> u32 {
        match self {
            Type::Integer(size) => size,
            Type::Bool => 1,
        }
    }

    /// Returns the number of bits a value of this type occupies.
    pub fn bit_width(&self) -> (size: u32)
        ensures
            size == self.bits(),
    {
        match *self {
            Type::Integer(size) => size,
            Type::Bool => 1,
        }
    }
}

/// A call signature: the types of the inputs, in order, and the type of the
/// one output.
#[derive(Debug, Hash, PartialEq, Eq)]
pub struct Function {
    pub inputs: Vec<handle::Type>,
    pub output: handle::Type,
}

impl Clone for Function {
    /// A signature with the same inputs and the same output.
    fn clone(&self) -> (copy: Self)
        ensures
            copy.inputs@ == self.inputs@,
            copy.output == self.output,
    {
        let mut inputs: Vec<handle::Type> = Vec::new();
        let mut k: usize = 0;
        while k < self.inputs.len()
            invariant
                k <= self.inputs@.len(),
                inputs@ == self.inputs@.take(k as int),
            decreases self.inputs@.len() - k,
        {
            inputs.push(self.inputs[k]);
            proof {
                assert(self.inputs@.take(k as int + 1) =~= self.inputs@.take(k as int).push(
                    self.inputs@[k as int],
                ));
            }
            k += 1;
        }
        proof {
            assert(self.inputs@.take(k as int) =~= self.inputs@);
        }
        Function { inputs, output: self.output }
    }
}

impl Function {
    /// A signature with the given inputs and output.
    pub fn new(inputs: Vec<handle::Type>, output: handle::Type) -> (ty: Self)
        ensures
            ty.inputs == inputs,
            ty.output == output,
    {
        Function { inputs, output }
    }

    /// The output type.
    pub fn output(&self) -> (ty: handle::Type)
        ensures
            ty == self.output,
    {
        self.output
    }
}

} // verus!
