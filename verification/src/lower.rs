//! Lowering: from a finished context to the target module.
//!
//! Functions are added to the module in creation order, so a function keeps
//! its position. Each function gets one target block per block, in order, and
//! each block its instructions in the order its values were built. A constant
//! becomes an operand, not an instruction. An operand must have been emitted
//! before the instruction that uses it: it is a parameter, or a value listed
//! in an earlier block, or earlier in the same block.

use vstd::prelude::*;
use crate::error::Error;
use crate::function::{block_ok, function_ok, value_ok, Block, Function, Terminator, ValueKind};
use crate::handle;
use crate::llvm::{
    get_int_type, BasicBlock, Builder, InstructionView, Module, Opcode, Transfer, TypeKind, Value,
};
use crate::pcb::Ctxt;
use crate::ty;

verus! {

/// Whether `n` is among the first `upto` of `values`.
pub open spec fn listed(values: Seq<usize>, upto: int, n: int) -> bool
    decreases upto,
{
    upto > 0 && (values[upto - 1] == n || listed(values, upto - 1, n))
}

/// Whether one of the first `upto` of `blocks` lists `n`.
pub open spec fn listed_in_blocks(blocks: Seq<Block>, upto: int, n: int) -> bool
    decreases upto,
{
    upto > 0 && (listed(
        blocks[upto - 1].block_values@,
        blocks[upto - 1].block_values@.len() as int,
        n,
    ) || listed_in_blocks(blocks, upto - 1, n))
}

/// Whether value `n` of function `f` is emitted before position `k` of block
/// `b`: it is a parameter, or a block before `b` lists it, or `b` lists it
/// before position `k`.
pub open spec fn emitted_before(funcs: Seq<Function>, f: int, b: int, k: int, n: int) -> bool {
    ||| n < funcs[f].ty.inputs@.len()
    ||| listed_in_blocks(funcs[f].blocks@, b, n)
    ||| listed(funcs[f].blocks@[b].block_values@, k, n)
}

/// The target value that stands for value `n` of function `f` where it is
/// used: the parameter, the constant, or the result named `n`.
pub open spec fn operand_value(types: Seq<ty::Type>, funcs: Seq<Function>, f: int, n: int) -> Value {
    match funcs[f].values@[n].kind {
        ValueKind::Parameter(_) => Value::Parameter { func: f as usize, index: n as usize },
        ValueKind::ConstInt { ty, value } => Value::Constant {
            bits: types[ty.index as int].bits(),
            value,
        },
        _ => Value::Instruction { name: n as usize },
    }
}

impl ValueKind {
    /// The values this kind uses, in order: the arguments of a call, the two
    /// operands of an operation, nothing else.
    pub open spec fn uses(self) -> Seq<handle::Value> {
        match self {
            ValueKind::Call { parameters, .. } => parameters@,
            kind => match kind.operands() {
                Some((l, r)) => seq![l, r],
                None => Seq::empty(),
            },
        }
    }

    /// The target operation of a call or an operation. `ZShr` is the logical
    /// and `SShr` the arithmetic shift.
    pub open spec fn opcode(self) -> Opcode {
        match self {
            ValueKind::Call { function, .. } => Opcode::Call { callee: function.index },
            ValueKind::Mul(_, _) => Opcode::Mul,
            ValueKind::UDiv(_, _) => Opcode::UDiv,
            ValueKind::SDiv(_, _) => Opcode::SDiv,
            ValueKind::URem(_, _) => Opcode::URem,
            ValueKind::SRem(_, _) => Opcode::SRem,
            ValueKind::Add(_, _) => Opcode::Add,
            ValueKind::Sub(_, _) => Opcode::Sub,
            ValueKind::Shl(_, _) => Opcode::Shl,
            ValueKind::ZShr(_, _) => Opcode::LShr,
            ValueKind::SShr(_, _) => Opcode::AShr,
            ValueKind::And(_, _) => Opcode::And,
            ValueKind::Xor(_, _) => Opcode::Xor,
            _ => Opcode::Or,
        }
    }
}

/// Whether each of `uses` is emitted before position `k` of block `b`.
pub open spec fn all_emitted(
    funcs: Seq<Function>,
    f: int,
    b: int,
    k: int,
    uses: Seq<handle::Value>,
) -> bool {
    forall|i: int|
        0 <= i < uses.len() ==> emitted_before(funcs, f, b, k, (#[trigger] uses[i]).number as int)
}

/// Why the value at position `k` of block `b` cannot be lowered: it is a
/// comparison, or a parameter, or uses a value that is not emitted before it.
pub open spec fn value_refusal(funcs: Seq<Function>, f: int, b: int, k: int) -> Option<Error> {
    let kind = funcs[f].values@[funcs[f].blocks@[b].block_values@[k] as int].kind;
    if kind.is_comparison() {
        Some(Error::NotImplemented)
    } else if kind is Parameter {
        Some(Error::ParameterBuilt)
    } else if !all_emitted(funcs, f, b, k, kind.uses()) {
        Some(Error::UndefinedOperand)
    } else {
        None
    }
}

/// The target instruction for value `n` of function `f`, which is a call or
/// an operation: named `n`, with the target values of what it uses as
/// operands.
pub open spec fn instruction_of(
    types: Seq<ty::Type>,
    funcs: Seq<Function>,
    f: int,
    n: int,
) -> InstructionView {
    let kind = funcs[f].values@[n].kind;
    InstructionView {
        name: n as usize,
        opcode: kind.opcode(),
        operands: kind.uses().map_values(
            |v: handle::Value| operand_value(types, funcs, f, v.number as int),
        ),
    }
}

/// The instructions for the first `upto` values of block `b`: one for each
/// call and operation, none for a constant.
pub open spec fn block_code(
    types: Seq<ty::Type>,
    funcs: Seq<Function>,
    f: int,
    b: int,
    upto: int,
) -> Seq<InstructionView>
    decreases upto,
{
    if upto <= 0 {
        Seq::empty()
    } else {
        let n = funcs[f].blocks@[b].block_values@[upto - 1] as int;
        let before = block_code(types, funcs, f, b, upto - 1);
        if funcs[f].values@[n].kind is ConstInt {
            before
        } else {
            before.push(instruction_of(types, funcs, f, n))
        }
    }
}

/// The refusal of the first of the first `upto` values of block `b` that
/// cannot be lowered.
pub open spec fn values_refusal(funcs: Seq<Function>, f: int, b: int, upto: int) -> Option<Error>
    decreases upto,
{
    if upto <= 0 {
        None
    } else if values_refusal(funcs, f, b, upto - 1) is Some {
        values_refusal(funcs, f, b, upto - 1)
    } else {
        value_refusal(funcs, f, b, upto - 1)
    }
}

/// Why the terminator of block `b` cannot be lowered: it is not set, or it
/// returns a value that is not emitted in or before the block.
pub open spec fn terminator_refusal(funcs: Seq<Function>, f: int, b: int) -> Option<Error> {
    let blk = funcs[f].blocks@[b];
    match blk.terminator {
        Terminator::Unset => Some(Error::NoTerminator),
        Terminator::Branch(_) => None,
        Terminator::Return(v) => if emitted_before(
            funcs,
            f,
            b,
            blk.block_values@.len() as int,
            v.number as int,
        ) {
            None
        } else {
            Some(Error::UndefinedOperand)
        },
    }
}

/// The control transfer for a terminator that is set.
pub open spec fn transfer_of(
    types: Seq<ty::Type>,
    funcs: Seq<Function>,
    f: int,
    terminator: Terminator,
) -> Transfer {
    match terminator {
        Terminator::Branch(target) => Transfer::Br(
            BasicBlock { func: f as usize, index: target.number },
        ),
        Terminator::Return(v) => Transfer::Ret(operand_value(types, funcs, f, v.number as int)),
        Terminator::Unset => Transfer::Br(BasicBlock { func: f as usize, index: 0 }),
    }
}

/// Why block `b` cannot be lowered: the first of its values that cannot, else
/// its terminator.
pub open spec fn block_refusal(funcs: Seq<Function>, f: int, b: int) -> Option<Error> {
    let all = funcs[f].blocks@[b].block_values@.len() as int;
    if values_refusal(funcs, f, b, all) is Some {
        values_refusal(funcs, f, b, all)
    } else {
        terminator_refusal(funcs, f, b)
    }
}

/// The refusal of the first of the first `upto` blocks that cannot be lowered.
pub open spec fn blocks_refusal(funcs: Seq<Function>, f: int, upto: int) -> Option<Error>
    decreases upto,
{
    if upto <= 0 {
        None
    } else if blocks_refusal(funcs, f, upto - 1) is Some {
        blocks_refusal(funcs, f, upto - 1)
    } else {
        block_refusal(funcs, f, upto - 1)
    }
}

/// Why function `f` cannot be lowered: it has no block, or one of its blocks
/// cannot be lowered.
pub open spec fn function_refusal(funcs: Seq<Function>, f: int) -> Option<Error> {
    if funcs[f].blocks@.len() == 0 {
        Some(Error::NoBlocks)
    } else {
        blocks_refusal(funcs, f, funcs[f].blocks@.len() as int)
    }
}

/// The refusal of the first of the first `upto` functions that cannot be
/// lowered.
pub open spec fn program_refusal(funcs: Seq<Function>, upto: int) -> Option<Error>
    decreases upto,
{
    if upto <= 0 {
        None
    } else if program_refusal(funcs, upto - 1) is Some {
        program_refusal(funcs, upto - 1)
    } else {
        function_refusal(funcs, upto - 1)
    }
}

/// Once a value is refused, the refusal stands for every longer prefix.
pub proof fn lemma_values_refusal_first(funcs: Seq<Function>, f: int, b: int, k: int, upto: int)
    requires
        0 <= k < upto,
        values_refusal(funcs, f, b, k) is None,
        value_refusal(funcs, f, b, k) is Some,
    ensures
        values_refusal(funcs, f, b, upto) == value_refusal(funcs, f, b, k),
    decreases upto,
{
    if upto > k + 1 {
        lemma_values_refusal_first(funcs, f, b, k, upto - 1);
    }
}

/// Once a block is refused, the refusal stands for every longer prefix.
pub proof fn lemma_blocks_refusal_first(funcs: Seq<Function>, f: int, b: int, upto: int)
    requires
        0 <= b < upto,
        blocks_refusal(funcs, f, b) is None,
        block_refusal(funcs, f, b) is Some,
    ensures
        blocks_refusal(funcs, f, upto) == block_refusal(funcs, f, b),
    decreases upto,
{
    if upto > b + 1 {
        lemma_blocks_refusal_first(funcs, f, b, upto - 1);
    }
}

/// Once a function is refused, the refusal stands for every longer prefix.
pub proof fn lemma_program_refusal_first(funcs: Seq<Function>, f: int, upto: int)
    requires
        0 <= f < upto,
        program_refusal(funcs, f) is None,
        function_refusal(funcs, f) is Some,
    ensures
        program_refusal(funcs, upto) == function_refusal(funcs, f),
    decreases upto,
{
    if upto > f + 1 {
        lemma_program_refusal_first(funcs, f, upto - 1);
    }
}

/// The bit widths of the inputs of a signature.
pub open spec fn input_bits(types: Seq<ty::Type>, inputs: Seq<handle::Type>) -> Seq<u32> {
    inputs.map_values(|t: handle::Type| types[t.index as int].bits())
}

/// Whether target block `b` of function `f` of `module` is block `b` of the
/// context, lowered: labelled by its number, with the block's instructions
/// and its control transfer.
pub open spec fn block_lowered(ctxt: &Ctxt, module: &Module, f: int, b: int) -> bool {
    let blk = ctxt.funcs()[f].blocks@[b];
    let body = module.functions@[f].blocks@[b];
    &&& body.label == b
    &&& body.code() == block_code(ctxt.types(), ctxt.funcs(), f, b, blk.block_values@.len() as int)
    &&& body.transfer == Some(transfer_of(ctxt.types(), ctxt.funcs(), f, blk.terminator))
}

/// Whether function `f` of `module` has the name and the target type of
/// function `f` of the context and one block per block.
pub open spec fn function_declared(ctxt: &Ctxt, module: &Module, f: int) -> bool {
    let func = ctxt.funcs()[f];
    let def = module.functions@[f];
    &&& def.name@ == func.name@
    &&& def.ty.kind matches TypeKind::Function { inputs, output }
    &&& inputs@ == input_bits(ctxt.types(), func.ty.inputs@)
    &&& output == ctxt.types()[func.ty.output.index as int].bits()
}

/// Whether function `f` of `module` is declared and has no block yet.
pub open spec fn function_pending(ctxt: &Ctxt, module: &Module, f: int) -> bool {
    function_declared(ctxt, module, f) && module.functions@[f].blocks@.len() == 0
}

/// Whether function `f` of `module` is function `f` of the context, lowered.
pub open spec fn function_lowered(ctxt: &Ctxt, module: &Module, f: int) -> bool {
    &&& function_declared(ctxt, module, f)
    &&& module.functions@[f].blocks@.len() == ctxt.funcs()[f].blocks@.len()
    &&& forall|b: int|
        0 <= b < ctxt.funcs()[f].blocks@.len() ==> #[trigger] block_lowered(ctxt, module, f, b)
}

/// Whether `module` is the context, lowered: function for function, in order.
pub open spec fn lowered(ctxt: &Ctxt, module: &Module) -> bool {
    &&& module.functions@.len() == ctxt.funcs().len()
    &&& forall|f: int| 0 <= f < ctxt.funcs().len() ==> #[trigger] function_lowered(ctxt, module, f)
}

/// Whether `table` holds, for each value of function `f` that is emitted
/// before position `k` of block `b`, its target value, and nothing for the
/// others.
pub open spec fn table_ok(ctxt: &Ctxt, f: int, b: int, k: int, table: Seq<Option<Value>>) -> bool {
    &&& table.len() == ctxt.funcs()[f].values@.len()
    &&& forall|n: int|
        0 <= n < table.len() ==> ((#[trigger] table[n]) is Some <==> emitted_before(
            ctxt.funcs(),
            f,
            b,
            k,
            n,
        ))
    &&& forall|n: int|
        0 <= n < table.len() && (#[trigger] table[n]) is Some ==> table[n] == Some(
            operand_value(ctxt.types(), ctxt.funcs(), f, n),
        )
}

/// The target type of a signature: a function from integers as wide as the
/// inputs to an integer as wide as the output.
pub fn get_function_type(ctxt: &Ctxt, ty: &ty::Function) -> (target: crate::llvm::Type)
    requires
        ctxt.signature_refusal(*ty) is None,
    ensures
        target.kind matches TypeKind::Function { inputs, output } && inputs@ == input_bits(
            ctxt.types(),
            ty.inputs@,
        ) && output == ctxt.types()[ty.output.index as int].bits(),
{
    let mut inputs: Vec<u32> = Vec::new();
    let mut k: usize = 0;
    while k < ty.inputs.len()
        invariant
            ctxt.signature_refusal(*ty) is None,
            k <= ty.inputs@.len(),
            inputs@ == input_bits(ctxt.types(), ty.inputs@.take(k as int)),
        decreases ty.inputs@.len() - k,
    {
        assert(ctxt.has_type(ty.inputs@[k as int]));
        inputs.push(ctxt.type_ctxt.store[ty.inputs[k].index].bit_width());
        proof {
            assert(ty.inputs@.take(k as int + 1) =~= ty.inputs@.take(k as int).push(
                ty.inputs@[k as int],
            ));
            assert(inputs@ =~= input_bits(ctxt.types(), ty.inputs@.take(k as int + 1)));
        }
        k += 1;
    }
    proof {
        assert(ty.inputs@.take(k as int) =~= ty.inputs@);
    }
    let output = ctxt.type_ctxt.store[ty.output.index].bit_width();
    crate::llvm::Type { kind: TypeKind::Function { inputs, output } }
}

/// Looks up the target values of `uses`, in order; `None` if one of them is
/// not in the table.
fn lookup(values: &Vec<Option<Value>>, uses: &[handle::Value]) -> (found: Option<Vec<Value>>)
    requires
        forall|i: int| 0 <= i < uses@.len() ==> (#[trigger] uses@[i]).number < values@.len(),
    ensures
        match found {
            Some(found) => found@.len() == uses@.len() && forall|i: int|
                0 <= i < uses@.len() ==> values@[(#[trigger] uses@[i]).number as int] == Some(
                    found@[i],
                ),
            None => exists|i: int|
                0 <= i < uses@.len() && values@[(#[trigger] uses@[i]).number as int] is None,
        },
{
    let mut found: Vec<Value> = Vec::new();
    let mut k: usize = 0;
    while k < uses.len()
        invariant
            forall|i: int| 0 <= i < uses@.len() ==> (#[trigger] uses@[i]).number < values@.len(),
            k <= uses@.len(),
            found@.len() == k,
            forall|i: int|
                0 <= i < k ==> values@[(#[trigger] uses@[i]).number as int] == Some(found@[i]),
        decreases uses@.len() - k,
    {
        assert(uses@[k as int].number < values@.len());
        match values[uses[k].number] {
            Some(v) => {
                found.push(v);
            },
            None => {
                return None;
            },
        }
        k += 1;
    }
    Some(found)
}

/// Lowers the value at position `k` of block `b` of function `f`: emits its
/// instruction at the builder's position, or makes its constant, and enters
/// its target value in the table.
fn build_value(
    ctxt: &Ctxt,
    f: usize,
    b: usize,
    k: usize,
    builder: &Builder,
    module: &mut Module,
    values: &mut Vec<Option<Value>>,
) -> (r: Result<(), Error>)
    requires
        ctxt.wf(),
        ctxt.has_block(handle::Block { func: f, number: b }),
        k < ctxt.funcs()[f as int].blocks@[b as int].block_values@.len(),
        builder.position == Some(BasicBlock { func: f, index: b }),
        old(module).has_block(BasicBlock { func: f, index: b }),
        old(module).body(BasicBlock { func: f, index: b }).code() == block_code(
            ctxt.types(),
            ctxt.funcs(),
            f as int,
            b as int,
            k as int,
        ),
        table_ok(ctxt, f as int, b as int, k as int, old(values)@),
    ensures
        match value_refusal(ctxt.funcs(), f as int, b as int, k as int) {
            Some(e) => r == Err::<(), Error>(e),
            None => {
                &&& r is Ok
                &&& table_ok(ctxt, f as int, b as int, k + 1, final(values)@)
                &&& old(module).only_block_changed(final(module), BasicBlock { func: f, index: b })
                &&& final(module).body(BasicBlock { func: f, index: b }).transfer == old(
                    module,
                ).body(BasicBlock { func: f, index: b }).transfer
                &&& final(module).body(BasicBlock { func: f, index: b }).code() == block_code(
                    ctxt.types(),
                    ctxt.funcs(),
                    f as int,
                    b as int,
                    k + 1,
                )
            },
        },
{
    let ghost types = ctxt.types();
    let ghost funcs = ctxt.funcs();
    proof {
        assert(function_ok(funcs, types.len(), f as int));
        assert(block_ok(funcs, f as int, b as int));
    }
    let func = &ctxt.func_ctxt.vec[f];
    let n = func.blocks.vec[b].block_values[k];
    proof {
        assert(value_ok(funcs, types.len(), f as int, n as int));
    }
    let kind = &func.values.vec[n].kind;
    let llval = match kind {
        ValueKind::ConstInt { ty, value } => {
            Value::const_int(get_int_type(ctxt.type_ctxt.store[ty.index].bit_width()), *value)
        },
        ValueKind::Parameter(_) => {
            return Err(Error::ParameterBuilt);
        },
        ValueKind::Call { function, parameters } => {
            let llvm_params = match lookup(values, parameters.as_slice()) {
                Some(found) => found,
                None => {
                    return Err(Error::UndefinedOperand);
                },
            };
            proof {
                assert(llvm_params@ =~= instruction_of(types, funcs, f as int, n as int).operands);
            }
            builder.build_call(module, n, Value::Function(function.index), llvm_params.as_slice())
        },
        _ => {
            if kind.comparison() {
                return Err(Error::NotImplemented);
            }
            let (lhs, rhs) = match kind.binary_operands() {
                Some(ops) => ops,
                None => {
                    return Err(Error::NotImplemented);
                },
            };
            proof {
                assert(kind.uses() =~= seq![lhs, rhs]);
                assert(kind.uses()[0] == lhs);
                assert(kind.uses()[1] == rhs);
            }
            let a = match values[lhs.number] {
                Some(v) => v,
                None => {
                    return Err(Error::UndefinedOperand);
                },
            };
            let c = match values[rhs.number] {
                Some(v) => v,
                None => {
                    return Err(Error::UndefinedOperand);
                },
            };
            proof {
                assert(seq![a, c] =~= instruction_of(types, funcs, f as int, n as int).operands);
            }
            match kind {
                ValueKind::Mul(_, _) => builder.build_mul(module, n, a, c),
                ValueKind::UDiv(_, _) => builder.build_udiv(module, n, a, c),
                ValueKind::SDiv(_, _) => builder.build_sdiv(module, n, a, c),
                ValueKind::URem(_, _) => builder.build_urem(module, n, a, c),
                ValueKind::SRem(_, _) => builder.build_srem(module, n, a, c),
                ValueKind::Add(_, _) => builder.build_add(module, n, a, c),
                ValueKind::Sub(_, _) => builder.build_sub(module, n, a, c),
                ValueKind::Shl(_, _) => builder.build_shl(module, n, a, c),
                ValueKind::ZShr(_, _) => builder.build_lshr(module, n, a, c),
                ValueKind::SShr(_, _) => builder.build_ashr(module, n, a, c),
                ValueKind::And(_, _) => builder.build_and(module, n, a, c),
                ValueKind::Xor(_, _) => builder.build_xor(module, n, a, c),
                _ => builder.build_or(module, n, a, c),
            }
        },
    };
    values.set(n, Some(llval));
    Ok(())
}

/// Lowers the terminator of block `b` of function `f` at the builder's
/// position.
fn build_terminator(
    ctxt: &Ctxt,
    f: usize,
    b: usize,
    builder: &Builder,
    module: &mut Module,
    values: &Vec<Option<Value>>,
) -> (r: Result<(), Error>)
    requires
        ctxt.wf(),
        ctxt.has_block(handle::Block { func: f, number: b }),
        builder.position == Some(BasicBlock { func: f, index: b }),
        old(module).has_block(BasicBlock { func: f, index: b }),
        table_ok(
            ctxt,
            f as int,
            b as int,
            ctxt.funcs()[f as int].blocks@[b as int].block_values@.len() as int,
            values@,
        ),
    ensures
        match terminator_refusal(ctxt.funcs(), f as int, b as int) {
            Some(e) => r == Err::<(), Error>(e),
            None => r is Ok && old(module).ended(
                final(module),
                BasicBlock { func: f, index: b },
                transfer_of(
                    ctxt.types(),
                    ctxt.funcs(),
                    f as int,
                    ctxt.funcs()[f as int].blocks@[b as int].terminator,
                ),
            ),
        },
{
    proof {
        assert(function_ok(ctxt.funcs(), ctxt.types().len(), f as int));
        assert(block_ok(ctxt.funcs(), f as int, b as int));
    }
    match ctxt.func_ctxt.vec[f].blocks.vec[b].terminator {
        Terminator::Branch(target) => {
            builder.build_br(module, BasicBlock { func: f, index: target.number });
            Ok(())
        },
        Terminator::Return(v) => {
            match values[v.number] {
                Some(ret) => {
                    builder.build_ret(module, ret);
                    Ok(())
                },
                None => Err(Error::UndefinedOperand),
            }
        },
        Terminator::Unset => Err(Error::NoTerminator),
    }
}

/// Lowers block `b` of function `f` at the builder's position: its values in
/// order, then its terminator.
fn build_block(
    ctxt: &Ctxt,
    f: usize,
    b: usize,
    builder: &Builder,
    module: &mut Module,
    values: &mut Vec<Option<Value>>,
) -> (r: Result<(), Error>)
    requires
        ctxt.wf(),
        ctxt.has_block(handle::Block { func: f, number: b }),
        builder.position == Some(BasicBlock { func: f, index: b }),
        old(module).has_block(BasicBlock { func: f, index: b }),
        old(module).body(BasicBlock { func: f, index: b }).code() == Seq::<InstructionView>::empty(),
        table_ok(ctxt, f as int, b as int, 0, old(values)@),
    ensures
        match block_refusal(ctxt.funcs(), f as int, b as int) {
            Some(e) => r == Err::<(), Error>(e),
            None => {
                &&& r is Ok
                &&& table_ok(
                    ctxt,
                    f as int,
                    b as int,
                    ctxt.funcs()[f as int].blocks@[b as int].block_values@.len() as int,
                    final(values)@,
                )
                &&& old(module).only_block_changed(final(module), BasicBlock { func: f, index: b })
                &&& final(module).body(BasicBlock { func: f, index: b }).code() == block_code(
                    ctxt.types(),
                    ctxt.funcs(),
                    f as int,
                    b as int,
                    ctxt.funcs()[f as int].blocks@[b as int].block_values@.len() as int,
                )
                &&& final(module).body(BasicBlock { func: f, index: b }).transfer == Some(
                    transfer_of(
                        ctxt.types(),
                        ctxt.funcs(),
                        f as int,
                        ctxt.funcs()[f as int].blocks@[b as int].terminator,
                    ),
                )
            },
        },
{
    let ghost pos = BasicBlock { func: f, index: b };
    let count = ctxt.func_ctxt.vec[f].blocks.vec[b].block_values.len();
    let mut k: usize = 0;
    while k < count
        invariant
            ctxt.wf(),
            ctxt.has_block(handle::Block { func: f, number: b }),
            count == ctxt.funcs()[f as int].blocks@[b as int].block_values@.len(),
            k <= count,
            pos == (BasicBlock { func: f, index: b }),
            builder.position == Some(pos),
            module.has_block(pos),
            old(module).only_block_changed(module, pos),
            module.body(pos).transfer == old(module).body(pos).transfer,
            module.body(pos).code() == block_code(
                ctxt.types(),
                ctxt.funcs(),
                f as int,
                b as int,
                k as int,
            ),
            table_ok(ctxt, f as int, b as int, k as int, values@),
            values_refusal(ctxt.funcs(), f as int, b as int, k as int) is None,
        decreases count - k,
    {
        let ghost before = *module;
        match build_value(ctxt, f, b, k, builder, module, values) {
            Err(e) => {
                proof {
                    lemma_values_refusal_first(
                        ctxt.funcs(),
                        f as int,
                        b as int,
                        k as int,
                        count as int,
                    );
                }
                return Err(e);
            },
            Ok(()) => {},
        }
        proof {
            before.lemma_only_block_changed_twice(old(module), module, pos);
        }
        k += 1;
    }
    let ghost before = *module;
    match build_terminator(ctxt, f, b, builder, module, values) {
        Err(e) => {
            return Err(e);
        },
        Ok(()) => {},
    }
    proof {
        before.lemma_only_block_changed_twice(old(module), module, pos);
    }
    Ok(())
}

/// Lowers function `f` into its declaration `llfunc`: one target block per
/// block, in order, then the contents of each.
fn build_function(ctxt: &Ctxt, f: usize, llfunc: Value, module: &mut Module) -> (r: Result<
    (),
    Error,
>)
    requires
        ctxt.wf(),
        ctxt.has_function(handle::Function { index: f }),
        llfunc == Value::Function(f),
        f < old(module).functions@.len(),
        old(module).functions@[f as int].blocks@.len() == 0,
    ensures
        match function_refusal(ctxt.funcs(), f as int) {
            Some(e) => r == Err::<(), Error>(e),
            None => {
                &&& r is Ok
                &&& old(module).only_blocks_changed(final(module), f as int)
                &&& final(module).functions@[f as int].blocks@.len()
                    == ctxt.funcs()[f as int].blocks@.len()
                &&& forall|b: int|
                    0 <= b < ctxt.funcs()[f as int].blocks@.len() ==> #[trigger] block_lowered(
                        ctxt,
                        final(module),
                        f as int,
                        b,
                    )
            },
        },
{
    let ghost types = ctxt.types();
    let ghost funcs = ctxt.funcs();
    proof {
        assert(function_ok(funcs, types.len(), f as int));
    }
    let func = &ctxt.func_ctxt.vec[f];
    let count = func.blocks.vec.len();
    if count == 0 {
        return Err(Error::NoBlocks);
    }
    let mut llvm_values: Vec<Option<Value>> = Vec::new();
    let mut n: usize = 0;
    while n < func.values.vec.len()
        invariant
            ctxt.wf(),
            funcs == ctxt.funcs(),
            types == ctxt.types(),
            ctxt.has_function(handle::Function { index: f }),
            *func == funcs[f as int],
            llfunc == Value::Function(f),
            n <= func.values@.len(),
            llvm_values@.len() == n,
            forall|m: int|
                0 <= m < n ==> ((#[trigger] llvm_values@[m]) is Some <==> m
                    < func.ty.inputs@.len()),
            forall|m: int|
                0 <= m < n && (#[trigger] llvm_values@[m]) is Some ==> llvm_values@[m] == Some(
                    operand_value(types, funcs, f as int, m),
                ),
        decreases func.values@.len() - n,
    {
        proof {
            assert(function_ok(funcs, types.len(), f as int));
            assert(value_ok(funcs, types.len(), f as int, n as int));
        }
        if n < func.ty.inputs.len() {
            llvm_values.push(Some(Value::get_param(llfunc, n)));
        } else {
            llvm_values.push(None);
        }
        n += 1;
    }
    let mut i: usize = 0;
    while i < count
        invariant
            ctxt.has_function(handle::Function { index: f }),
            funcs == ctxt.funcs(),
            count == funcs[f as int].blocks@.len(),
            llfunc == Value::Function(f),
            f < module.functions@.len(),
            i <= count,
            old(module).only_blocks_changed(module, f as int),
            module.functions@[f as int].blocks@.len() == i,
            forall|c: int|
                0 <= c < i ==> {
                    let body = #[trigger] module.functions@[f as int].blocks@[c];
                    &&& body.label == c
                    &&& body.code() == Seq::<InstructionView>::empty()
                    &&& body.transfer is None
                },
        decreases count - i,
    {
        let ghost before = *module;
        BasicBlock::append(module, llfunc, i);
        proof {
            assert forall|c: int| 0 <= c < i + 1 implies {
                let body = #[trigger] module.functions@[f as int].blocks@[c];
                &&& body.label == c
                &&& body.code() == Seq::<InstructionView>::empty()
                &&& body.transfer is None
            } by {
                if c < i {
                    assert(module.functions@[f as int].blocks@.drop_last()[c]
                        == before.functions@[f as int].blocks@[c]);
                }
            }
        }
        i += 1;
    }
    let mut builder = Builder::new();
    let mut b: usize = 0;
    proof {
        assert(table_ok(ctxt, f as int, 0, 0, llvm_values@)) by {
            assert forall|m: int| 0 <= m < llvm_values@.len() implies ((
            #[trigger] llvm_values@[m]) is Some <==> emitted_before(funcs, f as int, 0, 0, m)) by {
                assert(!listed_in_blocks(funcs[f as int].blocks@, 0, m));
                assert(!listed(funcs[f as int].blocks@[0].block_values@, 0, m));
            }
        }
    }
    while b < count
        invariant
            ctxt.wf(),
            ctxt.has_function(handle::Function { index: f }),
            funcs == ctxt.funcs(),
            types == ctxt.types(),
            count == funcs[f as int].blocks@.len(),
            f < module.functions@.len(),
            b <= count,
            old(module).only_blocks_changed(module, f as int),
            module.functions@[f as int].blocks@.len() == count,
            forall|c: int|
                0 <= c < b ==> #[trigger] block_lowered(ctxt, module, f as int, c),
            forall|c: int|
                b <= c < count ==> {
                    let body = #[trigger] module.functions@[f as int].blocks@[c];
                    &&& body.label == c
                    &&& body.code() == Seq::<InstructionView>::empty()
                    &&& body.transfer is None
                },
            table_ok(ctxt, f as int, b as int, 0, llvm_values@),
            blocks_refusal(funcs, f as int, b as int) is None,
        decreases count - b,
    {
        let ghost before = *module;
        builder.position_at_end(BasicBlock { func: f, index: b });
        match build_block(ctxt, f, b, &builder, module, &mut llvm_values) {
            Err(e) => {
                proof {
                    lemma_blocks_refusal_first(funcs, f as int, b as int, count as int);
                }
                return Err(e);
            },
            Ok(()) => {},
        }
        proof {
            assert(block_lowered(ctxt, module, f as int, b as int));
            assert forall|c: int| 0 <= c < b implies #[trigger] block_lowered(
                ctxt,
                module,
                f as int,
                c,
            ) by {
                assert(block_lowered(ctxt, &before, f as int, c));
                assert(module.functions@[f as int].blocks@[c] == before.functions@[f as int].blocks@[c]);
            }
            assert forall|c: int| b + 1 <= c < count implies {
                let body = #[trigger] module.functions@[f as int].blocks@[c];
                &&& body.label == c
                &&& body.code() == Seq::<InstructionView>::empty()
                &&& body.transfer is None
            } by {
                assert(module.functions@[f as int].blocks@[c] == before.functions@[f as int].blocks@[c]);
            }
            let all = funcs[f as int].blocks@[b as int].block_values@.len() as int;
            assert forall|m: int| 0 <= m < llvm_values@.len() implies ((
            #[trigger] llvm_values@[m]) is Some <==> emitted_before(
                funcs,
                f as int,
                b + 1,
                0,
                m,
            )) by {
                assert(llvm_values@[m] is Some <==> emitted_before(funcs, f as int, b as int, all, m));

            }
        }
        b += 1;
    }
    Ok(())
}

/// The lowering to the target module.
pub struct Llvm;

impl Llvm {
    /// The optimisation level that the code generator is run at for a context
    /// created with the flag `optimize`.
    pub open spec fn level(optimize: bool) -> crate::llvm::OptLevel {
        if optimize {
            crate::llvm::OptLevel::NoOptimization
        } else {
            crate::llvm::OptLevel::DefaultOptimization
        }
    }

    /// Returns the optimisation level for a context.
    pub fn opt_level(ctxt: &Ctxt) -> (level: crate::llvm::OptLevel)
        ensures
            level == Self::level(ctxt.optimizes()),
    {
        if ctxt.optimize() {
            crate::llvm::OptLevel::NoOptimization
        } else {
            crate::llvm::OptLevel::DefaultOptimization
        }
    }

    /// Lowers the whole context: declares every function, in creation order,
    /// then fills each. Refused with the refusal of the first function that
    /// cannot be lowered: one without blocks (`NoBlocks`), with a block
    /// without terminator (`NoTerminator`), or with a value that is used
    /// before it is emitted (`UndefinedOperand`). The module that is returned
    /// can be written to a code generator in emission order.
    pub fn build(ctxt: &Ctxt) -> (r: Result<Module, Error>)
        requires
            ctxt.wf(),
        ensures
            match program_refusal(ctxt.funcs(), ctxt.funcs().len() as int) {
                Some(e) => r == Err::<Module, Error>(e),
                None => r matches Ok(module) && lowered(ctxt, &module) && module.replayable(),
            },
    {
        let ghost funcs = ctxt.funcs();
        let count = ctxt.func_ctxt.vec.len();
        let mut module = Module::new();
        let mut f: usize = 0;
        while f < count
            invariant
                ctxt.wf(),
                funcs == ctxt.funcs(),
                count == funcs.len(),
                f <= count,
                module.functions@.len() == f,
                forall|g: int| 0 <= g < f ==> #[trigger] function_pending(ctxt, &module, g),
            decreases count - f,
        {
            proof {
                assert(function_ok(funcs, ctxt.types().len(), f as int));
            }
            let ghost before = module;
            let function = &ctxt.func_ctxt.vec[f];
            let ty = get_function_type(ctxt, &function.ty);
            module.add_function(function.name.as_str(), ty);
            proof {
                assert forall|g: int| 0 <= g < f + 1 implies #[trigger] function_pending(
                    ctxt,
                    &module,
                    g,
                ) by {
                    if g < f {
                        assert(function_pending(ctxt, &before, g));
                        assert(module.functions@.drop_last()[g] == before.functions@[g]);
                    }
                }
            }
            f += 1;
        }
        let mut f: usize = 0;
        while f < count
            invariant
                ctxt.wf(),
                funcs == ctxt.funcs(),
                count == funcs.len(),
                f <= count,
                module.functions@.len() == count,
                forall|g: int| 0 <= g < f ==> #[trigger] function_lowered(ctxt, &module, g),
                forall|g: int| f <= g < count ==> #[trigger] function_pending(ctxt, &module, g),
                program_refusal(funcs, f as int) is None,
            decreases count - f,
        {
            let ghost before = module;
            assert(function_pending(ctxt, &module, f as int));
            match build_function(ctxt, f, Value::Function(f), &mut module) {
                Err(e) => {
                    proof {
                        lemma_program_refusal_first(funcs, f as int, count as int);
                    }
                    return Err(e);
                },
                Ok(()) => {},
            }
            proof {
                assert(function_lowered(ctxt, &module, f as int));
                assert forall|g: int| 0 <= g < f implies #[trigger] function_lowered(
                    ctxt,
                    &module,
                    g,
                ) by {
                    assert(function_lowered(ctxt, &before, g));
                    assert(module.functions@[g] == before.functions@[g]);
                    assert forall|b: int|
                        0 <= b < ctxt.funcs()[g].blocks@.len() implies #[trigger] block_lowered(
                        ctxt,
                        &module,
                        g,
                        b,
                    ) by {
                        assert(block_lowered(ctxt, &before, g, b));
                    }
                }
                assert forall|g: int| f + 1 <= g < count implies #[trigger] function_pending(
                    ctxt,
                    &module,
                    g,
                ) by {
                    assert(function_pending(ctxt, &before, g));
                    assert(module.functions@[g] == before.functions@[g]);
                }
            }
            f += 1;
        }
        proof {
            lemma_lowered_is_replayable(ctxt, &module);
        }
        Ok(module)
    }
}

/// In a well-formed context no block lists a comparison or a parameter, so
/// lowering is refused for one of three reasons only: a function without
/// blocks, a block without terminator, or a value that is used before it is
/// emitted.
pub proof fn lemma_refusals_of_lowering(ctxt: &Ctxt)
    requires
        ctxt.wf(),
    ensures
        match program_refusal(ctxt.funcs(), ctxt.funcs().len() as int) {
            Some(e) => e == Error::NoBlocks || e == Error::NoTerminator || e
                == Error::UndefinedOperand,
            None => true,
        },
{
    lemma_program_refusals(ctxt, ctxt.funcs().len() as int);
}

proof fn lemma_values_refusals(ctxt: &Ctxt, f: int, b: int, upto: int)
    requires
        ctxt.wf(),
        0 <= f < ctxt.funcs().len(),
        0 <= b < ctxt.funcs()[f].blocks@.len(),
        upto <= ctxt.funcs()[f].blocks@[b].block_values@.len(),
    ensures
        values_refusal(ctxt.funcs(), f, b, upto) matches Some(e) ==> e == Error::UndefinedOperand,
    decreases upto,
{
    if upto > 0 {
        lemma_values_refusals(ctxt, f, b, upto - 1);
        let funcs = ctxt.funcs();
        assert(function_ok(funcs, ctxt.types().len(), f));
        assert(block_ok(funcs, f, b));
        let n = funcs[f].blocks@[b].block_values@[upto - 1] as int;
        assert(value_ok(funcs, ctxt.types().len(), f, n));
    }
}

proof fn lemma_blocks_refusals(ctxt: &Ctxt, f: int, upto: int)
    requires
        ctxt.wf(),
        0 <= f < ctxt.funcs().len(),
        upto <= ctxt.funcs()[f].blocks@.len(),
    ensures
        blocks_refusal(ctxt.funcs(), f, upto) matches Some(e) ==> e == Error::NoTerminator || e
            == Error::UndefinedOperand,
    decreases upto,
{
    if upto > 0 {
        lemma_blocks_refusals(ctxt, f, upto - 1);
        lemma_values_refusals(
            ctxt,
            f,
            upto - 1,
            ctxt.funcs()[f].blocks@[upto - 1].block_values@.len() as int,
        );
    }
}

proof fn lemma_program_refusals(ctxt: &Ctxt, upto: int)
    requires
        ctxt.wf(),
        upto <= ctxt.funcs().len(),
    ensures
        program_refusal(ctxt.funcs(), upto) matches Some(e) ==> e == Error::NoBlocks || e
            == Error::NoTerminator || e == Error::UndefinedOperand,
    decreases upto,
{
    if upto > 0 {
        lemma_program_refusals(ctxt, upto - 1);
        lemma_blocks_refusals(ctxt, upto - 1, ctxt.funcs()[upto - 1].blocks@.len() as int);
    }
}

/// The block that was appended first to a function is the first block of the
/// lowered function, where its execution starts, and is labelled 0.
pub proof fn lemma_entry_block_first(ctxt: &Ctxt, module: &Module, f: int)
    requires
        0 <= f < ctxt.funcs().len(),
        program_refusal(ctxt.funcs(), ctxt.funcs().len() as int) is None,
        lowered(ctxt, module),
    ensures
        module.functions@[f].blocks@.len() >= 1,
        module.functions@[f].blocks@[0].label == 0,
        block_lowered(ctxt, module, f, 0),
{
    assert(function_lowered(ctxt, module, f));
    lemma_program_accepts_each(ctxt.funcs(), f, ctxt.funcs().len() as int);
    assert(block_lowered(ctxt, module, f, 0));
}

/// If no function of a prefix is refused, each of them is accepted.
pub proof fn lemma_program_accepts_each(funcs: Seq<Function>, f: int, upto: int)
    requires
        0 <= f < upto,
        program_refusal(funcs, upto) is None,
    ensures
        function_refusal(funcs, f) is None,
    decreases upto,
{
    if f < upto - 1 {
        lemma_program_accepts_each(funcs, f, upto - 1);
    }
}

/// If no value of a prefix is refused, each of them is accepted.
pub proof fn lemma_values_accept_each(funcs: Seq<Function>, f: int, b: int, k: int, upto: int)
    requires
        0 <= k < upto,
        values_refusal(funcs, f, b, upto) is None,
    ensures
        value_refusal(funcs, f, b, k) is None,
    decreases upto,
{
    if k < upto - 1 {
        lemma_values_accept_each(funcs, f, b, k, upto - 1);
    }
}

/// If no block of a prefix is refused, each of them is accepted.
pub proof fn lemma_blocks_accept_each(funcs: Seq<Function>, f: int, b: int, upto: int)
    requires
        0 <= b < upto,
        blocks_refusal(funcs, f, upto) is None,
    ensures
        block_refusal(funcs, f, b) is None,
    decreases upto,
{
    if b < upto - 1 {
        lemma_blocks_accept_each(funcs, f, b, upto - 1);
    }
}

/// A value that is listed is listed at some position.
proof fn lemma_listed_at(values: Seq<usize>, upto: int, n: int) -> (j: int)
    requires
        listed(values, upto, n),
    ensures
        0 <= j < upto,
        values[j] == n,
    decreases upto,
{
    if values[upto - 1] == n {
        upto - 1
    } else {
        lemma_listed_at(values, upto - 1, n)
    }
}

/// A value that is listed in blocks is listed in one of them at some position.
proof fn lemma_listed_in_block(blocks: Seq<Block>, upto: int, n: int) -> (at: (int, int))
    requires
        listed_in_blocks(blocks, upto, n),
    ensures
        0 <= at.0 < upto,
        0 <= at.1 < blocks[at.0].block_values@.len(),
        blocks[at.0].block_values@[at.1] == n,
    decreases upto,
{
    let last = blocks[upto - 1].block_values@;
    if listed(last, last.len() as int, n) {
        (upto - 1, lemma_listed_at(last, last.len() as int, n))
    } else {
        lemma_listed_in_block(blocks, upto - 1, n)
    }
}

/// The instructions of a longer prefix of a block start with those of a
/// shorter one.
proof fn lemma_block_code_grows(
    types: Seq<ty::Type>,
    funcs: Seq<Function>,
    f: int,
    b: int,
    k: int,
    upto: int,
)
    requires
        0 <= k <= upto,
    ensures
        block_code(types, funcs, f, b, k).is_prefix_of(block_code(types, funcs, f, b, upto)),
    decreases upto,
{
    if k < upto {
        lemma_block_code_grows(types, funcs, f, b, k, upto - 1);
    }
}

/// A call or an operation at position `k` of a block has its instruction at
/// the position that is the number of instructions before it.
proof fn lemma_instruction_at(
    types: Seq<ty::Type>,
    funcs: Seq<Function>,
    f: int,
    b: int,
    k: int,
    upto: int,
)
    requires
        0 <= k < upto,
        !(funcs[f].values@[funcs[f].blocks@[b].block_values@[k] as int].kind is ConstInt),
    ensures
        block_code(types, funcs, f, b, k).len() < block_code(types, funcs, f, b, upto).len(),
        block_code(types, funcs, f, b, upto)[block_code(types, funcs, f, b, k).len() as int]
            == instruction_of(types, funcs, f, funcs[f].blocks@[b].block_values@[k] as int),
{
    lemma_block_code_grows(types, funcs, f, b, k + 1, upto);
    let one = block_code(types, funcs, f, b, k + 1);
    let all = block_code(types, funcs, f, b, upto);
    let at = block_code(types, funcs, f, b, k).len() as int;
    assert(one == block_code(types, funcs, f, b, k).push(
        instruction_of(types, funcs, f, funcs[f].blocks@[b].block_values@[k] as int),
    ));
    assert(one[at] == all.subrange(0, one.len() as int)[at]);
}

/// Every instruction of a block stands for a call or an operation that the
/// block lists.
proof fn lemma_instruction_from(
    types: Seq<ty::Type>,
    funcs: Seq<Function>,
    f: int,
    b: int,
    upto: int,
    i: int,
) -> (k: int)
    requires
        0 <= i < block_code(types, funcs, f, b, upto).len(),
    ensures
        0 <= k < upto,
        !(funcs[f].values@[funcs[f].blocks@[b].block_values@[k] as int].kind is ConstInt),
        block_code(types, funcs, f, b, k).len() == i,
        block_code(types, funcs, f, b, upto)[i] == instruction_of(
            types,
            funcs,
            f,
            funcs[f].blocks@[b].block_values@[k] as int,
        ),
    decreases upto,
{
    let n = funcs[f].blocks@[b].block_values@[upto - 1] as int;
    let before = block_code(types, funcs, f, b, upto - 1);
    if !(funcs[f].values@[n].kind is ConstInt) && i == before.len() {
        upto - 1
    } else {
        let k = lemma_instruction_from(types, funcs, f, b, upto - 1, i);
        lemma_block_code_grows(types, funcs, f, b, upto - 1, upto);
        k
    }
}

/// A value that is emitted before a position can be used there.
proof fn lemma_emitted_is_usable(ctxt: &Ctxt, module: &Module, f: int, b: int, k: int, n: int)
    requires
        ctxt.wf(),
        0 <= f < ctxt.funcs().len(),
        0 <= b < ctxt.funcs()[f].blocks@.len(),
        0 <= k <= ctxt.funcs()[f].blocks@[b].block_values@.len(),
        0 <= n < ctxt.funcs()[f].values@.len(),
        lowered(ctxt, module),
        emitted_before(ctxt.funcs(), f, b, k, n),
    ensures
        module.usable(
            f,
            b,
            block_code(ctxt.types(), ctxt.funcs(), f, b, k).len() as int,
            operand_value(ctxt.types(), ctxt.funcs(), f, n),
        ),
{
    let types = ctxt.types();
    let funcs = ctxt.funcs();
    assert(function_ok(funcs, types.len(), f));
    assert(value_ok(funcs, types.len(), f, n));
    assert(function_lowered(ctxt, module, f));
    let kind = funcs[f].values@[n].kind;
    let blocks = funcs[f].blocks@;
    let here = block_code(types, funcs, f, b, k).len() as int;
    if kind is Parameter {
        assert(module.functions@[f].ty.kind matches TypeKind::Function { inputs, .. } && inputs@.len()
            == funcs[f].ty.inputs@.len());
    } else if kind is ConstInt {
    } else {
        if listed_in_blocks(blocks, b, n) {
            let (c, j) = lemma_listed_in_block(blocks, b, n);
            let all = blocks[c].block_values@.len() as int;
            lemma_instruction_at(types, funcs, f, c, j, all);
            assert(block_lowered(ctxt, module, f, c));
            let at = block_code(types, funcs, f, c, j).len() as int;
            assert(module.functions@[f].blocks@[c].code()[at].name == n);
        } else {
            let j = lemma_listed_at(blocks[b].block_values@, k, n);
            let all = blocks[b].block_values@.len() as int;
            lemma_instruction_at(types, funcs, f, b, j, all);
            lemma_instruction_at(types, funcs, f, b, j, j + 1);
            lemma_block_code_grows(types, funcs, f, b, j + 1, k);
            assert(block_lowered(ctxt, module, f, b));
            let at = block_code(types, funcs, f, b, j).len() as int;
            assert(at < here);
            assert(module.functions@[f].blocks@[b].code()[at].name == n);
        }
    }
}

/// A module that lowering produced can be written in emission order: every
/// operand is a function of the module, an input of the function at hand, a
/// constant, or a result that is emitted before its use; every branch stays
/// in its function; and every function has a first block to start at.
pub proof fn lemma_lowered_is_replayable(ctxt: &Ctxt, module: &Module)
    requires
        ctxt.wf(),
        program_refusal(ctxt.funcs(), ctxt.funcs().len() as int) is None,
        lowered(ctxt, module),
    ensures
        module.replayable(),
{
    let types = ctxt.types();
    let funcs = ctxt.funcs();
    assert forall|f: int| 0 <= f < module.functions@.len() implies #[trigger] module.function_replayable(
        f,
    ) by {
        assert(function_lowered(ctxt, module, f));
        assert(function_ok(funcs, types.len(), f));
        lemma_program_accepts_each(funcs, f, funcs.len() as int);
        lemma_names_unique(ctxt, module, f);
        assert forall|b: int|
            0 <= b < module.functions@[f].blocks@.len() implies #[trigger] module.block_replayable(
            f,
            b,
        ) by {
            lemma_block_replayable(ctxt, module, f, b);
        }
    }
}

/// No two instructions of a lowered function have the same name, because no
/// value is listed twice.
proof fn lemma_names_unique(ctxt: &Ctxt, module: &Module, f: int)
    requires
        ctxt.wf(),
        0 <= f < ctxt.funcs().len(),
        lowered(ctxt, module),
    ensures
        module.names_unique(f),
{
    let types = ctxt.types();
    let funcs = ctxt.funcs();
    let blocks = funcs[f].blocks@;
    assert(function_lowered(ctxt, module, f));
    assert(function_ok(funcs, types.len(), f));
    assert forall|b: int, c: int, i: int, j: int|
        0 <= b < module.functions@[f].blocks@.len() && 0 <= c < module.functions@[f].blocks@.len()
            && 0 <= i < module.functions@[f].blocks@[b].code().len() && 0 <= j
            < module.functions@[f].blocks@[c].code().len() && (b != c || i != j) implies (
    #[trigger] module.functions@[f].blocks@[b].code()[i]).name != (
    #[trigger] module.functions@[f].blocks@[c].code()[j]).name by {
        assert(block_lowered(ctxt, module, f, b));
        assert(block_lowered(ctxt, module, f, c));
        assert(block_ok(funcs, f, b));
        assert(block_ok(funcs, f, c));
        let at = lemma_instruction_from(
            types,
            funcs,
            f,
            b,
            blocks[b].block_values@.len() as int,
            i,
        );
        let to = lemma_instruction_from(
            types,
            funcs,
            f,
            c,
            blocks[c].block_values@.len() as int,
            j,
        );
        let n = blocks[b].block_values@[at];
        let m = blocks[c].block_values@[to];
        if n == m {
            ctxt.lemma_value_has_one_home(handle::Value { func: f as usize, number: n });
            assert(b == c && at == to);
        }
    }
}

proof fn lemma_block_replayable(ctxt: &Ctxt, module: &Module, f: int, b: int)
    requires
        ctxt.wf(),
        0 <= f < ctxt.funcs().len(),
        0 <= b < ctxt.funcs()[f].blocks@.len(),
        function_refusal(ctxt.funcs(), f) is None,
        lowered(ctxt, module),
    ensures
        module.block_replayable(f, b),
{
    let types = ctxt.types();
    let funcs = ctxt.funcs();
    let blk = funcs[f].blocks@[b];
    let all = blk.block_values@.len() as int;
    let body = module.functions@[f].blocks@[b];
    assert(function_lowered(ctxt, module, f));
    assert(block_lowered(ctxt, module, f, b));
    assert(function_ok(funcs, types.len(), f));
    assert(block_ok(funcs, f, b));
    lemma_blocks_accept_each(funcs, f, b, funcs[f].blocks@.len() as int);
    assert forall|i: int, k: int|
        0 <= i < body.code().len() && 0 <= k < body.code()[i].operands.len() implies module.usable(
        f,
        b,
        i,
        #[trigger] body.code()[i].operands[k],
    ) by {
        let at = lemma_instruction_from(types, funcs, f, b, all, i);
        let n = blk.block_values@[at] as int;
        lemma_values_accept_each(funcs, f, b, at, all);
        assert(value_ok(funcs, types.len(), f, n));
        let kind = funcs[f].values@[n].kind;
        let used = kind.uses()[k];
        assert(emitted_before(funcs, f, b, at, used.number as int));
        assert(used.number < n) by {
            match kind {
                ValueKind::Call { parameters, .. } => {
                    assert(crate::function::operand_ok(parameters@[k], f, n));
                },
                _ => {},
            }
        }
        lemma_emitted_is_usable(ctxt, module, f, b, at, used.number as int);
    }
    assert forall|i: int| 0 <= i < body.code().len() implies ((
    #[trigger] body.code()[i]).opcode matches Opcode::Call { callee } ==> callee
        < module.functions@.len()) by {
        let at = lemma_instruction_from(types, funcs, f, b, all, i);
        let n = blk.block_values@[at] as int;
        assert(value_ok(funcs, types.len(), f, n));
    }
    match blk.terminator {
        Terminator::Return(v) => {
            lemma_emitted_is_usable(ctxt, module, f, b, all, v.number as int);
        },
        _ => {},
    }
}

} // verus!
