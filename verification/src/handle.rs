//! Copyable handles to the objects that a context owns.
//!
//! A handle is an index into the registry that holds the object, so it stays
//! valid for as long as the context lives and can be compared cheaply.

use vstd::prelude::*;
use crate::error::Error;
use crate::function::{
    block_ok, function_ok, grows, lemma_kind_ok_grows, lemma_listing_block_added,
    lemma_listing_kept, lemma_listing_value_added, lemma_program_grows, lemma_type_of_grows,
    listing_ok, value_ok, Terminator, ValueKind,
};
use crate::pcb::Ctxt;
use crate::ty;

verus! {

/// The identity of an interned type. Two handles of one context are equal
/// exactly when the types they name are structurally equal.
#[derive(Debug, PartialEq, Eq, Hash, Clone, Copy, Structural)]
pub struct Type {
    pub index: usize,
}

/// A function of a context.
#[derive(Debug, PartialEq, Eq, Hash, Clone, Copy, Structural)]
pub struct Function {
    pub index: usize,
}

/// A basic block: the function that owns it and its number in that function.
#[derive(Debug, PartialEq, Eq, Hash, Clone, Copy, Structural)]
pub struct Block {
    pub func: usize,
    pub number: usize,
}

/// A value: the function that owns it and its number in that function.
#[derive(Debug, PartialEq, Eq, Hash, Clone, Copy, Structural)]
pub struct Value {
    pub func: usize,
    pub number: usize,
}

impl Type {
    /// The identity of the integer type of the given bit width.
    pub fn integer(ctxt: &mut Ctxt, size: u32) -> (id: Type)
        requires
            old(ctxt).wf(),
        ensures
            final(ctxt).wf(),
            old(ctxt).extended_by(final(ctxt)),
            old(ctxt).keeps_types(final(ctxt)),
            final(ctxt).types() == crate::common::Interner::interned(
                old(ctxt).types(),
                ty::Type::Integer(size),
            ),
            id.index == crate::common::Interner::identity(
                old(ctxt).types(),
                ty::Type::Integer(size),
            ),
            final(ctxt).funcs() == old(ctxt).funcs(),
            final(ctxt).optimizes() == old(ctxt).optimizes(),
            final(ctxt).has_type(id),
            final(ctxt).types()[id.index as int] == ty::Type::Integer(size),
    {
        ctxt.type_int(size)
    }
}

impl Function {
    /// Creates a function in `ctxt`; see [`Ctxt::add_function`].
    pub fn new(ctxt: &mut Ctxt, name: &str, ty: ty::Function) -> (r: Result<Function, Error>)
        requires
            old(ctxt).wf(),
        ensures
            final(ctxt).wf(),
            old(ctxt).extended_by(final(ctxt)),
            old(ctxt).keeps_types(final(ctxt)),
            match old(ctxt).signature_refusal(ty) {
                Some(e) => r == Err::<Function, Error>(e) && *final(ctxt) == *old(ctxt),
                None => r matches Ok(func) && old(ctxt).function_added(
                    final(ctxt),
                    name@,
                    ty,
                    func,
                ),
            },
    {
        ctxt.add_function(name, ty)
    }

    /// The parameter with index `number`. Refused with `InvalidHandle` if the
    /// context does not hold this function, else with `IndexOutOfRange` if the
    /// function has no such input.
    pub fn get_argument(self, ctxt: &Ctxt, number: u32) -> (r: Result<Value, Error>)
        requires
            ctxt.wf(),
        ensures
            r == ctxt.argument(self, number),
            r matches Ok(v) ==> ctxt.has_value(v) && ctxt.value_at(v).kind == ValueKind::Parameter(
                ctxt.funcs()[self.index as int].ty.inputs@[number as int],
            ) && ctxt.value_type(v) == ctxt.funcs()[self.index as int].ty.inputs@[number as int],
    {
        match ctxt.function(self) {
            None => Err(Error::InvalidHandle),
            Some(func) => {
                if number as usize >= func.ty.inputs.len() {
                    Err(Error::IndexOutOfRange)
                } else {
                    proof {
                        assert(function_ok(ctxt.funcs(), ctxt.types().len(), self.index as int));
                        assert(value_ok(
                            ctxt.funcs(),
                            ctxt.types().len(),
                            self.index as int,
                            number as int,
                        ));
                    }
                    Ok(Value { func: self.index, number: number as usize })
                }
            },
        }
    }

    /// Appends an empty, unterminated block, numbered by the count of blocks
    /// before it. Refused with `InvalidHandle` if the context does not hold
    /// this function.
    pub fn add_block(self, ctxt: &mut Ctxt) -> (r: Result<Block, Error>)
        requires
            old(ctxt).wf(),
        ensures
            final(ctxt).wf(),
            old(ctxt).extended_by(final(ctxt)),
            old(ctxt).keeps_types(final(ctxt)),
            old(ctxt).block_appended(final(ctxt), self, r),
    {
        if self.index >= ctxt.func_ctxt.len() {
            proof {
                ctxt.lemma_extended_by_itself();
                ctxt.lemma_types_kept(ctxt);
            }
            return Err(Error::InvalidHandle);
        }
        let number = ctxt.func_ctxt.vec[self.index].blocks.vec.len();
        ctxt.func_ctxt.vec[self.index].blocks.vec.push(
            crate::function::Block {
                number,
                terminator: Terminator::Unset,
                block_values: Vec::new(),
                func: self.index,
            },
        );
        let blk = Block { func: self.index, number };
        proof {
            let before = old(ctxt).funcs();
            let after = ctxt.funcs();
            let types = ctxt.types().len();
            let f = self.index as int;
            assert(after[f].blocks@.drop_last() =~= before[f].blocks@);
            assert(grows(before, after));
            assert(function_ok(before, types, f));
            assert(block_ok(after, f, number as int));
            assert forall|c: int| 0 <= c < before[f].blocks@.len() implies #[trigger] block_ok(
                after,
                f,
                c,
            ) by {
                assert(block_ok(before, f, c));
                crate::function::lemma_block_ok_grows(before, after, f, c);
            }
            assert forall|g: int, c: int|
                0 <= g < before.len() && 0 <= c < after[g].blocks@.len() implies #[trigger] block_ok(
                after,
                g,
                c,
            ) by {
                if g != f {
                    assert(function_ok(before, types, g));
                    assert(block_ok(before, g, c));
                    assert(after[g] == before[g]);
                }
            }
            old(ctxt).lemma_listing_of_others(ctxt, f);
            lemma_listing_block_added(before, after, f);
            lemma_program_grows(before, after, types, types);
            old(ctxt).lemma_block_added_extends(ctxt, blk);
            old(ctxt).lemma_types_kept(ctxt);
        }
        Ok(blk)
    }
}

impl Block {
    /// Appends a block to `func`; the first block appended to a function is
    /// its entry block.
    pub fn append(ctxt: &mut Ctxt, func: Function) -> (r: Result<Block, Error>)
        requires
            old(ctxt).wf(),
        ensures
            final(ctxt).wf(),
            old(ctxt).extended_by(final(ctxt)),
            old(ctxt).keeps_types(final(ctxt)),
            old(ctxt).block_appended(final(ctxt), func, r),
    {
        func.add_block(ctxt)
    }

    /// Appends a value of `kind` to this block's function and lists it in this
    /// block. The call is refused, and nothing changes, if the handle names no
    /// block, the block is terminated, or the kind cannot be built here; see
    /// [`Ctxt::kind_refusal`].
    pub fn add_value(self, ctxt: &mut Ctxt, kind: ValueKind) -> (r: Result<Value, Error>)
        requires
            old(ctxt).wf(),
        ensures
            final(ctxt).wf(),
            old(ctxt).extended_by(final(ctxt)),
            old(ctxt).keeps_types(final(ctxt)),
            old(ctxt).built(final(ctxt), self, kind, r),
    {
        if let Some(e) = ctxt.check_value(self, &kind) {
            proof {
                ctxt.lemma_extended_by_itself();
                ctxt.lemma_types_kept(ctxt);
            }
            return Err(e);
        }
        let ghost stored = kind;
        let number = ctxt.func_ctxt.vec[self.func].values.vec.len();
        ctxt.func_ctxt.vec[self.func].values.vec.push(
            crate::function::Value { number, kind, func: self.func },
        );
        ctxt.func_ctxt.vec[self.func].blocks.vec[self.number].block_values.push(number);
        let v = Value { func: self.func, number };
        proof {
            let before = old(ctxt).funcs();
            let after = ctxt.funcs();
            let types = ctxt.types().len();
            let f = self.func as int;
            let b = self.number as int;
            assert(after[f].values@.drop_last() =~= before[f].values@);
            assert(after[f].blocks@ =~= before[f].blocks@.update(b, after[f].blocks@[b]));
            assert(grows(before, after));
            assert(function_ok(before, types, f));
            assert(block_ok(before, f, b));
            old(ctxt).lemma_accepted_kind_ok(self.func, stored);
            lemma_kind_ok_grows(before, after, types, types, f, number as int, stored);
            assert(value_ok(after, types, f, number as int));
            assert(block_ok(after, f, b));
            old(ctxt).lemma_blocks_stay_ok(ctxt, f, b);
            old(ctxt).lemma_listing_of_others(ctxt, f);
            lemma_listing_value_added(before, after, types, f, b, number);
            lemma_program_grows(before, after, types, types);
            old(ctxt).lemma_value_added_extends(ctxt, self, v);
            old(ctxt).lemma_types_kept(ctxt);
            match stored {
                ValueKind::ConstInt { .. } => {},
                ValueKind::Parameter(_) => {},
                ValueKind::Call { function, .. } => {},
                _ => {
                    let (l, _) = stored.operands().unwrap();
                    lemma_type_of_grows(before, after, types, f, l.number as int);
                },
            }
        }
        Ok(v)
    }

    /// Builds the constant `value` of type `ty`. Beyond the block's own state
    /// only the type handle is checked.
    pub fn build_const_int(self, ctxt: &mut Ctxt, ty: Type, value: u64) -> (r: Result<Value, Error>)
        requires
            old(ctxt).wf(),
        ensures
            final(ctxt).wf(),
            old(ctxt).extended_by(final(ctxt)),
            old(ctxt).keeps_types(final(ctxt)),
            old(ctxt).built(final(ctxt), self, ValueKind::ConstInt { ty, value }, r),
    {
        self.add_value(ctxt, ValueKind::ConstInt { ty, value })
    }

    /// Builds a call of `func` with `args`. Refused with `ArityMismatch` if
    /// the argument count differs from the callee's input count, and with
    /// `TypeMismatch` if an argument's type differs from the input it is
    /// passed for. The result has the callee's output type.
    pub fn build_call(self, ctxt: &mut Ctxt, func: Function, args: &[Value]) -> (r: Result<
        Value,
        Error,
    >)
        requires
            old(ctxt).wf(),
        ensures
            final(ctxt).wf(),
            old(ctxt).extended_by(final(ctxt)),
            old(ctxt).keeps_types(final(ctxt)),
            old(ctxt).call_built(final(ctxt), self, func, args@, r),
    {
        let mut parameters: Vec<Value> = Vec::new();
        let mut k: usize = 0;
        while k < args.len()
            invariant
                k <= args@.len(),
                parameters@ == args@.take(k as int),
            decreases args@.len() - k,
        {
            parameters.push(args[k]);
            proof {
                assert(args@.take(k as int + 1) =~= args@.take(k as int).push(args@[k as int]));
            }
            k += 1;
        }
        proof {
            assert(args@.take(k as int) =~= args@);
        }
        self.add_value(ctxt, ValueKind::Call { function: func, parameters })
    }

    // -- binops --

    /// Builds `lhs * rhs`. Like every operation below, it is refused with
    /// `TypeMismatch` unless both operands have one type, which is then the
    /// type of the result.
    pub fn build_mul(self, ctxt: &mut Ctxt, lhs: Value, rhs: Value) -> (r: Result<Value, Error>)
        requires
            old(ctxt).wf(),
        ensures
            final(ctxt).wf(),
            old(ctxt).extended_by(final(ctxt)),
            old(ctxt).keeps_types(final(ctxt)),
            old(ctxt).built(final(ctxt), self, ValueKind::Mul(lhs, rhs), r),
    {
        self.add_value(ctxt, ValueKind::Mul(lhs, rhs))
    }

    /// Builds the unsigned quotient `lhs / rhs`.
    pub fn build_udiv(self, ctxt: &mut Ctxt, lhs: Value, rhs: Value) -> (r: Result<Value, Error>)
        requires
            old(ctxt).wf(),
        ensures
            final(ctxt).wf(),
            old(ctxt).extended_by(final(ctxt)),
            old(ctxt).keeps_types(final(ctxt)),
            old(ctxt).built(final(ctxt), self, ValueKind::UDiv(lhs, rhs), r),
    {
        self.add_value(ctxt, ValueKind::UDiv(lhs, rhs))
    }

    /// Builds the signed quotient `lhs / rhs`.
    pub fn build_sdiv(self, ctxt: &mut Ctxt, lhs: Value, rhs: Value) -> (r: Result<Value, Error>)
        requires
            old(ctxt).wf(),
        ensures
            final(ctxt).wf(),
            old(ctxt).extended_by(final(ctxt)),
            old(ctxt).keeps_types(final(ctxt)),
            old(ctxt).built(final(ctxt), self, ValueKind::SDiv(lhs, rhs), r),
    {
        self.add_value(ctxt, ValueKind::SDiv(lhs, rhs))
    }

    /// Builds the unsigned remainder `lhs % rhs`.
    pub fn build_urem(self, ctxt: &mut Ctxt, lhs: Value, rhs: Value) -> (r: Result<Value, Error>)
        requires
            old(ctxt).wf(),
        ensures
            final(ctxt).wf(),
            old(ctxt).extended_by(final(ctxt)),
            old(ctxt).keeps_types(final(ctxt)),
            old(ctxt).built(final(ctxt), self, ValueKind::URem(lhs, rhs), r),
    {
        self.add_value(ctxt, ValueKind::URem(lhs, rhs))
    }

    /// Builds the signed remainder `lhs % rhs`.
    pub fn build_srem(self, ctxt: &mut Ctxt, lhs: Value, rhs: Value) -> (r: Result<Value, Error>)
        requires
            old(ctxt).wf(),
        ensures
            final(ctxt).wf(),
            old(ctxt).extended_by(final(ctxt)),
            old(ctxt).keeps_types(final(ctxt)),
            old(ctxt).built(final(ctxt), self, ValueKind::SRem(lhs, rhs), r),
    {
        self.add_value(ctxt, ValueKind::SRem(lhs, rhs))
    }

    /// Builds `lhs + rhs`.
    pub fn build_add(self, ctxt: &mut Ctxt, lhs: Value, rhs: Value) -> (r: Result<Value, Error>)
        requires
            old(ctxt).wf(),
        ensures
            final(ctxt).wf(),
            old(ctxt).extended_by(final(ctxt)),
            old(ctxt).keeps_types(final(ctxt)),
            old(ctxt).built(final(ctxt), self, ValueKind::Add(lhs, rhs), r),
    {
        self.add_value(ctxt, ValueKind::Add(lhs, rhs))
    }

    /// Builds `lhs - rhs`.
    pub fn build_sub(self, ctxt: &mut Ctxt, lhs: Value, rhs: Value) -> (r: Result<Value, Error>)
        requires
            old(ctxt).wf(),
        ensures
            final(ctxt).wf(),
            old(ctxt).extended_by(final(ctxt)),
            old(ctxt).keeps_types(final(ctxt)),
            old(ctxt).built(final(ctxt), self, ValueKind::Sub(lhs, rhs), r),
    {
        self.add_value(ctxt, ValueKind::Sub(lhs, rhs))
    }

    /// Builds `lhs << rhs`.
    pub fn build_shl(self, ctxt: &mut Ctxt, lhs: Value, rhs: Value) -> (r: Result<Value, Error>)
        requires
            old(ctxt).wf(),
        ensures
            final(ctxt).wf(),
            old(ctxt).extended_by(final(ctxt)),
            old(ctxt).keeps_types(final(ctxt)),
            old(ctxt).built(final(ctxt), self, ValueKind::Shl(lhs, rhs), r),
    {
        self.add_value(ctxt, ValueKind::Shl(lhs, rhs))
    }

    /// Builds the logical right shift `lhs >> rhs`, which fills with zeros.
    pub fn build_zshr(self, ctxt: &mut Ctxt, lhs: Value, rhs: Value) -> (r: Result<Value, Error>)
        requires
            old(ctxt).wf(),
        ensures
            final(ctxt).wf(),
            old(ctxt).extended_by(final(ctxt)),
            old(ctxt).keeps_types(final(ctxt)),
            old(ctxt).built(final(ctxt), self, ValueKind::ZShr(lhs, rhs), r),
    {
        self.add_value(ctxt, ValueKind::ZShr(lhs, rhs))
    }

    /// Builds the arithmetic right shift `lhs >> rhs`, which fills with the
    /// sign bit.
    pub fn build_sshr(self, ctxt: &mut Ctxt, lhs: Value, rhs: Value) -> (r: Result<Value, Error>)
        requires
            old(ctxt).wf(),
        ensures
            final(ctxt).wf(),
            old(ctxt).extended_by(final(ctxt)),
            old(ctxt).keeps_types(final(ctxt)),
            old(ctxt).built(final(ctxt), self, ValueKind::SShr(lhs, rhs), r),
    {
        self.add_value(ctxt, ValueKind::SShr(lhs, rhs))
    }

    /// Builds `lhs & rhs`.
    pub fn build_and(self, ctxt: &mut Ctxt, lhs: Value, rhs: Value) -> (r: Result<Value, Error>)
        requires
            old(ctxt).wf(),
        ensures
            final(ctxt).wf(),
            old(ctxt).extended_by(final(ctxt)),
            old(ctxt).keeps_types(final(ctxt)),
            old(ctxt).built(final(ctxt), self, ValueKind::And(lhs, rhs), r),
    {
        self.add_value(ctxt, ValueKind::And(lhs, rhs))
    }

    /// Builds `lhs ^ rhs`.
    pub fn build_xor(self, ctxt: &mut Ctxt, lhs: Value, rhs: Value) -> (r: Result<Value, Error>)
        requires
            old(ctxt).wf(),
        ensures
            final(ctxt).wf(),
            old(ctxt).extended_by(final(ctxt)),
            old(ctxt).keeps_types(final(ctxt)),
            old(ctxt).built(final(ctxt), self, ValueKind::Xor(lhs, rhs), r),
    {
        self.add_value(ctxt, ValueKind::Xor(lhs, rhs))
    }

    /// Builds `lhs | rhs`.
    pub fn build_or(self, ctxt: &mut Ctxt, lhs: Value, rhs: Value) -> (r: Result<Value, Error>)
        requires
            old(ctxt).wf(),
        ensures
            final(ctxt).wf(),
            old(ctxt).extended_by(final(ctxt)),
            old(ctxt).keeps_types(final(ctxt)),
            old(ctxt).built(final(ctxt), self, ValueKind::Or(lhs, rhs), r),
    {
        self.add_value(ctxt, ValueKind::Or(lhs, rhs))
    }

    // -- terminators --

    /// Ends this block with a jump to `target`. Refused, and nothing changes,
    /// if this block takes no builder call, if `target` names no block, or,
    /// with `CrossFunctionReference`, if `target` belongs to another function.
    pub fn set_terminator_branch(self, ctxt: &mut Ctxt, target: Block) -> (r: Result<(), Error>)
        requires
            old(ctxt).wf(),
        ensures
            final(ctxt).wf(),
            old(ctxt).extended_by(final(ctxt)),
            old(ctxt).keeps_types(final(ctxt)),
            old(ctxt).terminated_by(
                final(ctxt),
                self,
                old(ctxt).branch_refusal(self, target),
                Terminator::Branch(target),
                r,
            ),
    {
        proof {
            ctxt.lemma_extended_by_itself();
            ctxt.lemma_types_kept(ctxt);
        }
        if let Some(e) = ctxt.check_block(self) {
            return Err(e);
        }
        if target.func >= ctxt.func_ctxt.len() || target.number
            >= ctxt.func_ctxt.vec[target.func].blocks.vec.len() {
            return Err(Error::InvalidHandle);
        }
        if target.func != self.func {
            return Err(Error::CrossFunctionReference);
        }
        self.terminate(ctxt, Terminator::Branch(target));
        Ok(())
    }

    /// Ends this block by returning `v`. Refused, and nothing changes, if this
    /// block takes no builder call, if `v` names no value, or, with
    /// `CrossFunctionReference`, if `v` belongs to another function.
    pub fn set_terminator_return(self, ctxt: &mut Ctxt, v: Value) -> (r: Result<(), Error>)
        requires
            old(ctxt).wf(),
        ensures
            final(ctxt).wf(),
            old(ctxt).extended_by(final(ctxt)),
            old(ctxt).keeps_types(final(ctxt)),
            old(ctxt).terminated_by(
                final(ctxt),
                self,
                old(ctxt).return_refusal(self, v),
                Terminator::Return(v),
                r,
            ),
    {
        proof {
            ctxt.lemma_extended_by_itself();
            ctxt.lemma_types_kept(ctxt);
        }
        if let Some(e) = ctxt.check_block(self) {
            return Err(e);
        }
        if let Some(e) = ctxt.check_operand(self.func, v) {
            return Err(e);
        }
        self.terminate(ctxt, Terminator::Return(v));
        Ok(())
    }

    /// Ends this block by returning `value`; see
    /// [`Block::set_terminator_return`].
    pub fn build_return(self, ctxt: &mut Ctxt, value: Value) -> (r: Result<(), Error>)
        requires
            old(ctxt).wf(),
        ensures
            final(ctxt).wf(),
            old(ctxt).extended_by(final(ctxt)),
            old(ctxt).keeps_types(final(ctxt)),
            old(ctxt).terminated_by(
                final(ctxt),
                self,
                old(ctxt).return_refusal(self, value),
                Terminator::Return(value),
                r,
            ),
    {
        self.set_terminator_return(ctxt, value)
    }

    /// Ends this block with a jump to `blk`; see
    /// [`Block::set_terminator_branch`].
    pub fn build_branch(self, ctxt: &mut Ctxt, blk: Block) -> (r: Result<(), Error>)
        requires
            old(ctxt).wf(),
        ensures
            final(ctxt).wf(),
            old(ctxt).extended_by(final(ctxt)),
            old(ctxt).keeps_types(final(ctxt)),
            old(ctxt).terminated_by(
                final(ctxt),
                self,
                old(ctxt).branch_refusal(self, blk),
                Terminator::Branch(blk),
                r,
            ),
    {
        self.set_terminator_branch(ctxt, blk)
    }

    /// Stores a terminator that was checked.
    fn terminate(self, ctxt: &mut Ctxt, terminator: Terminator)
        requires
            old(ctxt).wf(),
            old(ctxt).has_block(self),
            !old(ctxt).terminated(self),
            match terminator {
                Terminator::Branch(target) => old(ctxt).has_block(target) && target.func
                    == self.func,
                Terminator::Return(v) => old(ctxt).has_value(v) && v.func == self.func,
                Terminator::Unset => true,
            },
        ensures
            final(ctxt).wf(),
            old(ctxt).extended_by(final(ctxt)),
            old(ctxt).keeps_types(final(ctxt)),
            old(ctxt).terminator_set(final(ctxt), self, terminator),
    {
        ctxt.func_ctxt.vec[self.func].blocks.vec[self.number].terminator = terminator;
        proof {
            let before = old(ctxt).funcs();
            let after = ctxt.funcs();
            let types = ctxt.types().len();
            let f = self.func as int;
            let b = self.number as int;
            assert(after[f].blocks@ =~= before[f].blocks@.update(
                b,
                crate::function::Block { terminator, ..old(ctxt).block_at(self) },
            ));
            assert(grows(before, after));
            assert(function_ok(before, types, f));
            assert(block_ok(before, f, b));
            assert(block_ok(after, f, b));
            old(ctxt).lemma_blocks_stay_ok(ctxt, f, b);
            old(ctxt).lemma_listing_of_others(ctxt, f);
            lemma_listing_kept(before, after, f);
            lemma_program_grows(before, after, types, types);
            old(ctxt).lemma_terminator_set_extends(ctxt, self, terminator);
            old(ctxt).lemma_types_kept(ctxt);
        }
    }
}

impl Value {
    /// The derived type of this value: the stored type of a constant or a
    /// parameter, the callee's output type for a call, the operands' type for
    /// an operation. Refused with `InvalidHandle` if the context does not hold
    /// the value.
    pub fn ty(self, ctxt: &Ctxt) -> (r: Result<Type, Error>)
        requires
            ctxt.wf(),
        ensures
            ctxt.has_value(self) ==> r == Ok::<Type, Error>(ctxt.value_type(self)),
            !ctxt.has_value(self) ==> r == Err::<Type, Error>(Error::InvalidHandle),
    {
        if self.func < ctxt.func_ctxt.len() && self.number
            < ctxt.func_ctxt.vec[self.func].values.vec.len() {
            Ok(ctxt.type_of_value(self))
        } else {
            Err(Error::InvalidHandle)
        }
    }
}

} // verus!
