//! The target module that lowering writes.
//!
//! It holds, as plain data, what a code generator needs to emit the program:
//! each function with its target type, each block with its label, and in each
//! block the target instructions in emission order and the control transfer
//! that ends it. A result is named by the number of the value it computes,
//! and an operand names a result, a parameter or a constant.

use vstd::prelude::*;
use crate::ty;

verus! {

/// How much the code generator optimises.
#[derive(Debug, PartialEq, Eq, Clone, Copy, Structural)]
pub enum OptLevel {
    NoOptimization,
    LessOptimization,
    DefaultOptimization,
    AggressiveOptimization,
}

/// The shape of a target type.
pub enum TypeKind {
    /// An integer of the given bit width.
    Integer(u32),
    /// A function from integers of the given widths to one integer.
    Function { inputs: Vec<u32>, output: u32 },
}

/// A target type.
pub struct Type {
    pub kind: TypeKind,
}

/// The integer type of the given bit width.
pub fn get_int_type(size: u32) -> (ty: Type)
    ensures
        ty.kind == TypeKind::Integer(size),
{
    Type { kind: TypeKind::Integer(size) }
}

/// The target type of a value type: an integer of as many bits as the type
/// occupies.
pub fn get_type(ty: &ty::Type) -> (target: Type)
    ensures
        target.kind == TypeKind::Integer(ty.bits()),
{
    Type { kind: TypeKind::Integer(ty.bit_width()) }
}

/// A target value that an instruction can use.
#[derive(Debug, PartialEq, Eq, Clone, Copy, Structural)]
pub enum Value {
    /// A function of the module, by position.
    Function(usize),
    /// An input of a function of the module.
    Parameter { func: usize, index: usize },
    /// An integer constant of the given bit width.
    Constant { bits: u32, value: u64 },
    /// The result of the instruction with this name in the function at hand.
    Instruction { name: usize },
}

impl Value {
    /// The constant `value` of integer type `ty`.
    pub fn const_int(ty: Type, value: u64) -> (v: Value)
        requires
            ty.kind is Integer,
        ensures
            ty.kind == TypeKind::Integer(v->bits),
            v == (Value::Constant { bits: v->bits, value }),
    {
        match ty.kind {
            TypeKind::Integer(bits) => Value::Constant { bits, value },
            TypeKind::Function { .. } => Value::Constant { bits: 0, value },
        }
    }

    /// Input `number` of function `func`.
    pub fn get_param(func: Value, number: usize) -> (v: Value)
        requires
            func is Function,
        ensures
            v == (Value::Parameter { func: func->Function_0, index: number }),
    {
        match func {
            Value::Function(index) => Value::Parameter { func: index, index: number },
            _ => Value::Parameter { func: 0, index: number },
        }
    }
}

/// What a target instruction does with its operands.
#[derive(Debug, PartialEq, Eq, Clone, Copy, Structural)]
pub enum Opcode {
    /// Calls the function at this position of the module.
    Call { callee: usize },
    Mul,
    UDiv,
    SDiv,
    URem,
    SRem,
    Add,
    Sub,
    Shl,
    /// Logical shift right: fills with zeros.
    LShr,
    /// Arithmetic shift right: fills with the sign bit.
    AShr,
    And,
    Xor,
    Or,
}

/// One target instruction.
pub struct Instruction {
    /// The name of the result.
    pub name: usize,
    pub opcode: Opcode,
    pub operands: Vec<Value>,
}

/// An instruction as a value: its name, what it does, and its operands in
/// order.
pub struct InstructionView {
    pub name: usize,
    pub opcode: Opcode,
    pub operands: Seq<Value>,
}

impl Instruction {
    /// The instruction as a value.
    pub open spec fn view(&self) -> InstructionView {
        InstructionView { name: self.name, opcode: self.opcode, operands: self.operands@ }
    }
}

/// The control transfer that ends a target block.
#[derive(Debug, PartialEq, Eq, Clone, Copy, Structural)]
pub enum Transfer {
    /// Jump to a block of the same function.
    Br(BasicBlock),
    /// Return a value.
    Ret(Value),
}

/// A block of the target module: the function that holds it and its position
/// in that function.
#[derive(Debug, PartialEq, Eq, Clone, Copy, Structural)]
pub struct BasicBlock {
    pub func: usize,
    pub index: usize,
}

/// The contents of a target block.
pub struct Body {
    /// The number behind `bb` in the block's label.
    pub label: usize,
    pub instructions: Vec<Instruction>,
    pub transfer: Option<Transfer>,
}

impl Body {
    /// The instructions as values, in emission order.
    pub open spec fn code(&self) -> Seq<InstructionView> {
        self.instructions@.map_values(|i: Instruction| i@)
    }
}

/// A function of the target module.
pub struct Definition {
    pub name: String,
    pub ty: Type,
    pub blocks: Vec<Body>,
}

/// The target module: its functions in the order they were added. The first
/// block of a function is where its execution starts.
pub struct Module {
    pub functions: Vec<Definition>,
}

impl Module {
    /// Whether `blk` is a block of this module.
    pub open spec fn has_block(&self, blk: BasicBlock) -> bool {
        blk.func < self.functions@.len() && blk.index < self.functions@[blk.func as int].blocks@.len()
    }

    /// The contents of `blk`.
    pub open spec fn body(&self, blk: BasicBlock) -> Body {
        self.functions@[blk.func as int].blocks@[blk.index as int]
    }

    /// `later` is `self` with nothing changed but the blocks of function `f`.
    pub open spec fn only_blocks_changed(&self, later: &Module, f: int) -> bool {
        &&& later.functions@.len() == self.functions@.len()
        &&& forall|g: int|
            0 <= g < self.functions@.len() && g != f ==> #[trigger] later.functions@[g]
                == self.functions@[g]
        &&& later.functions@[f].name == self.functions@[f].name
        &&& later.functions@[f].ty == self.functions@[f].ty
    }

    /// `later` is `self` with nothing changed but block `blk`, which has the
    /// same label.
    pub open spec fn only_block_changed(&self, later: &Module, blk: BasicBlock) -> bool {
        let f = blk.func as int;
        &&& self.only_blocks_changed(later, f)
        &&& later.functions@[f].blocks@.len() == self.functions@[f].blocks@.len()
        &&& forall|c: int|
            0 <= c < self.functions@[f].blocks@.len() && c != blk.index
                ==> #[trigger] later.functions@[f].blocks@[c] == self.functions@[f].blocks@[c]
        &&& later.body(blk).label == self.body(blk).label
    }

    /// `later` is `self` with `instruction` behind the instructions of `blk`.
    pub open spec fn emitted(
        &self,
        later: &Module,
        blk: BasicBlock,
        instruction: InstructionView,
    ) -> bool {
        &&& self.only_block_changed(later, blk)
        &&& later.body(blk).transfer == self.body(blk).transfer
        &&& later.body(blk).code() == self.body(blk).code().push(instruction)
    }

    /// `later` is `self` with `transfer` ending `blk`.
    pub open spec fn ended(&self, later: &Module, blk: BasicBlock, transfer: Transfer) -> bool {
        &&& self.only_block_changed(later, blk)
        &&& later.body(blk).transfer == Some(transfer)
        &&& later.body(blk).code() == self.body(blk).code()
    }

    /// Whether an instruction named `name` is emitted in function `f` before
    /// position `i` of block `b`: in an earlier block, or earlier in `b`.
    pub open spec fn defines_before(&self, f: int, b: int, i: int, name: usize) -> bool {
        exists|c: int, j: int|
            0 <= c <= b && c < self.functions@[f].blocks@.len() && 0 <= j
                < self.functions@[f].blocks@[c].code().len() && (c < b || j < i)
                && (#[trigger] self.functions@[f].blocks@[c].code()[j]).name == name
    }

    /// Whether `v` can be used at position `i` of block `b` of function `f`:
    /// a function is one of the module, a parameter is an input of `f`, and a
    /// result is emitted before the position. A constant can be used anywhere.
    pub open spec fn usable(&self, f: int, b: int, i: int, v: Value) -> bool {
        match v {
            Value::Function(g) => g < self.functions@.len(),
            Value::Parameter { func, index } => func == f && (
            self.functions@[f].ty.kind matches TypeKind::Function { inputs, .. } && index
                < inputs@.len()),
            Value::Constant { .. } => true,
            Value::Instruction { name } => self.defines_before(f, b, i, name),
        }
    }

    /// Whether block `b` of function `f` can be written in emission order:
    /// each instruction uses only what is usable where it stands, each call
    /// names a function of the module, and the block ends with a jump to a
    /// block of `f` or with the return of a value that is usable at its end.
    pub open spec fn block_replayable(&self, f: int, b: int) -> bool {
        let body = self.functions@[f].blocks@[b];
        &&& forall|i: int, k: int|
            0 <= i < body.code().len() && 0 <= k < body.code()[i].operands.len() ==> self.usable(
                f,
                b,
                i,
                #[trigger] body.code()[i].operands[k],
            )
        &&& forall|i: int|
            0 <= i < body.code().len() ==> ((#[trigger] body.code()[i]).opcode matches Opcode::Call {
                callee,
            } ==> callee < self.functions@.len())
        &&& match body.transfer {
            Some(Transfer::Br(target)) => target.func == f && target.index
                < self.functions@[f].blocks@.len(),
            Some(Transfer::Ret(v)) => self.usable(f, b, body.code().len() as int, v),
            None => false,
        }
    }

    /// Whether no two instructions of function `f` have the same name.
    pub open spec fn names_unique(&self, f: int) -> bool {
        forall|b: int, c: int, i: int, j: int|
            0 <= b < self.functions@[f].blocks@.len() && 0 <= c < self.functions@[f].blocks@.len()
                && 0 <= i < self.functions@[f].blocks@[b].code().len() && 0 <= j
                < self.functions@[f].blocks@[c].code().len() && (b != c || i != j) ==> (
            #[trigger] self.functions@[f].blocks@[b].code()[i]).name != (
            #[trigger] self.functions@[f].blocks@[c].code()[j]).name
    }

    /// Whether function `f` can be written in emission order: it has a block
    /// to start at, every block can be written, and every name stands for one
    /// instruction.
    pub open spec fn function_replayable(&self, f: int) -> bool {
        &&& self.functions@[f].blocks@.len() > 0
        &&& self.names_unique(f)
        &&& forall|b: int|
            0 <= b < self.functions@[f].blocks@.len() ==> #[trigger] self.block_replayable(f, b)
    }

    /// Whether the whole module can be written in emission order.
    pub open spec fn replayable(&self) -> bool {
        forall|f: int| 0 <= f < self.functions@.len() ==> #[trigger] self.function_replayable(f)
    }

    /// Two changes to one block in a row are one change to that block.
    pub proof fn lemma_only_block_changed_twice(
        &self,
        earlier: &Module,
        later: &Module,
        blk: BasicBlock,
    )
        requires
            earlier.has_block(blk),
            earlier.only_block_changed(self, blk),
            self.only_block_changed(later, blk),
        ensures
            earlier.only_block_changed(later, blk),
            later.has_block(blk),
    {
        let f = blk.func as int;
        assert forall|g: int|
            0 <= g < earlier.functions@.len() && g != f implies #[trigger] later.functions@[g]
            == earlier.functions@[g] by {
            assert(self.functions@[g] == earlier.functions@[g]);
        }
        let blocks = earlier.functions@[f].blocks@;
        assert forall|c: int|
            0 <= c < blocks.len() && c != blk.index implies #[trigger] later.functions@[f].blocks@[c]
            == blocks[c] by {
            assert(self.functions@[f].blocks@[c] == earlier.functions@[f].blocks@[c]);
        }
    }

    /// A module without functions.
    pub fn new() -> (module: Self)
        ensures
            module.functions@.len() == 0,
    {
        Module { functions: Vec::new() }
    }

    /// Adds a function named `name` of target type `ty`, without blocks, behind
    /// the functions added before.
    pub fn add_function(&mut self, name: &str, ty: Type) -> (func: Value)
        ensures
            func == Value::Function(old(self).functions@.len() as usize),
            final(self).functions@.len() == old(self).functions@.len() + 1,
            final(self).functions@.drop_last() == old(self).functions@,
            final(self).functions@.last().name@ == name@,
            final(self).functions@.last().ty == ty,
            final(self).functions@.last().blocks@.len() == 0,
    {
        let index = self.functions.len();
        self.functions.push(Definition { name: name.to_owned(), ty, blocks: Vec::new() });
        proof {
            assert(self.functions@.drop_last() =~= old(self).functions@);
        }
        Value::Function(index)
    }
}

impl BasicBlock {
    /// Appends an empty block labelled `bb` and `num` to function `func`.
    pub fn append(module: &mut Module, func: Value, num: usize) -> (blk: BasicBlock)
        requires
            func is Function,
            func->Function_0 < old(module).functions@.len(),
        ensures
            blk.func == func->Function_0,
            blk.index == old(module).functions@[blk.func as int].blocks@.len(),
            old(module).only_blocks_changed(final(module), blk.func as int),
            final(module).functions@[blk.func as int].blocks@.len() == blk.index + 1,
            final(module).functions@[blk.func as int].blocks@.drop_last() == old(
                module,
            ).functions@[blk.func as int].blocks@,
            final(module).body(blk).label == num,
            final(module).body(blk).code() == Seq::<InstructionView>::empty(),
            final(module).body(blk).transfer is None,
    {
        let f = match func {
            Value::Function(index) => index,
            _ => 0,
        };
        let index = module.functions[f].blocks.len();
        module.functions[f].blocks.push(
            Body { label: num, instructions: Vec::new(), transfer: None },
        );
        let blk = BasicBlock { func: f, index };
        proof {
            assert(module.functions@[f as int].blocks@.drop_last() =~= old(
                module,
            ).functions@[f as int].blocks@);
            assert(module.body(blk).code() =~= Seq::<InstructionView>::empty());
        }
        blk
    }
}

/// Emits instructions at the end of the block it is positioned at.
pub struct Builder {
    pub position: Option<BasicBlock>,
}

impl Builder {
    /// Whether the builder is positioned at a block of `module`.
    pub open spec fn ready(&self, module: &Module) -> bool {
        self.position matches Some(blk) && module.has_block(blk)
    }

    /// A builder that is positioned nowhere.
    pub fn new() -> (builder: Self)
        ensures
            builder.position is None,
    {
        Builder { position: None }
    }

    /// Positions the builder at the end of `blk`.
    pub fn position_at_end(&mut self, blk: BasicBlock)
        ensures
            final(self).position == Some(blk),
    {
        self.position = Some(blk);
    }

    fn emit(
        &self,
        module: &mut Module,
        name: usize,
        opcode: Opcode,
        operands: Vec<Value>,
    ) -> (v: Value)
        requires
            self.ready(old(module)),
        ensures
            v == (Value::Instruction { name }),
            old(module).emitted(
                final(module),
                self.position.unwrap(),
                InstructionView { name, opcode, operands: operands@ },
            ),
    {
        let blk = self.position.unwrap();
        module.functions[blk.func].blocks[blk.index].instructions.push(
            Instruction { name, opcode, operands },
        );
        proof {
            assert(module.body(blk).code() =~= old(module).body(blk).code().push(
                InstructionView { name, opcode, operands: operands@ },
            ));
        }
        Value::Instruction { name }
    }

    fn emit_binary(
        &self,
        module: &mut Module,
        name: usize,
        opcode: Opcode,
        lhs: Value,
        rhs: Value,
    ) -> (v: Value)
        requires
            self.ready(old(module)),
        ensures
            v == (Value::Instruction { name }),
            old(module).emitted(
                final(module),
                self.position.unwrap(),
                InstructionView { name, opcode, operands: seq![lhs, rhs] },
            ),
    {
        let mut operands: Vec<Value> = Vec::new();
        operands.push(lhs);
        operands.push(rhs);
        proof {
            assert(operands@ =~= seq![lhs, rhs]);
        }
        self.emit(module, name, opcode, operands)
    }

    /// Emits a call of `callee` with `args`; the result is named `name`.
    pub fn build_call(
        &self,
        module: &mut Module,
        name: usize,
        callee: Value,
        args: &[Value],
    ) -> (v: Value)
        requires
            self.ready(old(module)),
            callee is Function,
        ensures
            v == (Value::Instruction { name }),
            old(module).emitted(
                final(module),
                self.position.unwrap(),
                InstructionView {
                    name,
                    opcode: Opcode::Call { callee: callee->Function_0 },
                    operands: args@,
                },
            ),
    {
        let index = match callee {
            Value::Function(index) => index,
            _ => 0,
        };
        let mut operands: Vec<Value> = Vec::new();
        let mut k: usize = 0;
        while k < args.len()
            invariant
                k <= args@.len(),
                operands@ == args@.take(k as int),
            decreases args@.len() - k,
        {
            operands.push(args[k]);
            proof {
                assert(args@.take(k as int + 1) =~= args@.take(k as int).push(args@[k as int]));
            }
            k += 1;
        }
        proof {
            assert(args@.take(k as int) =~= args@);
        }
        self.emit(module, name, Opcode::Call { callee: index }, operands)
    }

    /// Ends the block with a jump to `block`.
    pub fn build_br(&self, module: &mut Module, block: BasicBlock)
        requires
            self.ready(old(module)),
        ensures
            old(module).ended(final(module), self.position.unwrap(), Transfer::Br(block)),
    {
        let blk = self.position.unwrap();
        module.functions[blk.func].blocks[blk.index].transfer = Some(Transfer::Br(block));
    }

    /// Ends the block by returning `ret`.
    pub fn build_ret(&self, module: &mut Module, ret: Value)
        requires
            self.ready(old(module)),
        ensures
            old(module).ended(final(module), self.position.unwrap(), Transfer::Ret(ret)),
    {
        let blk = self.position.unwrap();
        module.functions[blk.func].blocks[blk.index].transfer = Some(Transfer::Ret(ret));
    }

    /// Emits the sum of `lhs` and `rhs`; the result is named `name`.
    pub fn build_add(&self, module: &mut Module, name: usize, lhs: Value, rhs: Value) -> (v: Value)
        requires
            self.ready(old(module)),
        ensures
            v == (Value::Instruction { name }),
            old(module).emitted(
                final(module),
                self.position.unwrap(),
                InstructionView { name, opcode: Opcode::Add, operands: seq![lhs, rhs] },
            ),
    {
        self.emit_binary(module, name, Opcode::Add, lhs, rhs)
    }

    /// Emits the difference of `lhs` and `rhs`; the result is named `name`.
    pub fn build_sub(&self, module: &mut Module, name: usize, lhs: Value, rhs: Value) -> (v: Value)
        requires
            self.ready(old(module)),
        ensures
            v == (Value::Instruction { name }),
            old(module).emitted(
                final(module),
                self.position.unwrap(),
                InstructionView { name, opcode: Opcode::Sub, operands: seq![lhs, rhs] },
            ),
    {
        self.emit_binary(module, name, Opcode::Sub, lhs, rhs)
    }

    /// Emits the product of `lhs` and `rhs`; the result is named `name`.
    pub fn build_mul(&self, module: &mut Module, name: usize, lhs: Value, rhs: Value) -> (v: Value)
        requires
            self.ready(old(module)),
        ensures
            v == (Value::Instruction { name }),
            old(module).emitted(
                final(module),
                self.position.unwrap(),
                InstructionView { name, opcode: Opcode::Mul, operands: seq![lhs, rhs] },
            ),
    {
        self.emit_binary(module, name, Opcode::Mul, lhs, rhs)
    }

    /// Emits the unsigned quotient of `lhs` and `rhs`; the result is named `name`.
    pub fn build_udiv(&self, module: &mut Module, name: usize, lhs: Value, rhs: Value) -> (v: Value)
        requires
            self.ready(old(module)),
        ensures
            v == (Value::Instruction { name }),
            old(module).emitted(
                final(module),
                self.position.unwrap(),
                InstructionView { name, opcode: Opcode::UDiv, operands: seq![lhs, rhs] },
            ),
    {
        self.emit_binary(module, name, Opcode::UDiv, lhs, rhs)
    }

    /// Emits the signed quotient of `lhs` and `rhs`; the result is named `name`.
    pub fn build_sdiv(&self, module: &mut Module, name: usize, lhs: Value, rhs: Value) -> (v: Value)
        requires
            self.ready(old(module)),
        ensures
            v == (Value::Instruction { name }),
            old(module).emitted(
                final(module),
                self.position.unwrap(),
                InstructionView { name, opcode: Opcode::SDiv, operands: seq![lhs, rhs] },
            ),
    {
        self.emit_binary(module, name, Opcode::SDiv, lhs, rhs)
    }

    /// Emits the unsigned remainder of `lhs` and `rhs`; the result is named `name`.
    pub fn build_urem(&self, module: &mut Module, name: usize, lhs: Value, rhs: Value) -> (v: Value)
        requires
            self.ready(old(module)),
        ensures
            v == (Value::Instruction { name }),
            old(module).emitted(
                final(module),
                self.position.unwrap(),
                InstructionView { name, opcode: Opcode::URem, operands: seq![lhs, rhs] },
            ),
    {
        self.emit_binary(module, name, Opcode::URem, lhs, rhs)
    }

    /// Emits the signed remainder of `lhs` and `rhs`; the result is named `name`.
    pub fn build_srem(&self, module: &mut Module, name: usize, lhs: Value, rhs: Value) -> (v: Value)
        requires
            self.ready(old(module)),
        ensures
            v == (Value::Instruction { name }),
            old(module).emitted(
                final(module),
                self.position.unwrap(),
                InstructionView { name, opcode: Opcode::SRem, operands: seq![lhs, rhs] },
            ),
    {
        self.emit_binary(module, name, Opcode::SRem, lhs, rhs)
    }

    /// Emits the bitwise and of `lhs` and `rhs`; the result is named `name`.
    pub fn build_and(&self, module: &mut Module, name: usize, lhs: Value, rhs: Value) -> (v: Value)
        requires
            self.ready(old(module)),
        ensures
            v == (Value::Instruction { name }),
            old(module).emitted(
                final(module),
                self.position.unwrap(),
                InstructionView { name, opcode: Opcode::And, operands: seq![lhs, rhs] },
            ),
    {
        self.emit_binary(module, name, Opcode::And, lhs, rhs)
    }

    /// Emits the bitwise exclusive or of `lhs` and `rhs`; the result is named `name`.
    pub fn build_xor(&self, module: &mut Module, name: usize, lhs: Value, rhs: Value) -> (v: Value)
        requires
            self.ready(old(module)),
        ensures
            v == (Value::Instruction { name }),
            old(module).emitted(
                final(module),
                self.position.unwrap(),
                InstructionView { name, opcode: Opcode::Xor, operands: seq![lhs, rhs] },
            ),
    {
        self.emit_binary(module, name, Opcode::Xor, lhs, rhs)
    }

    /// Emits the bitwise or of `lhs` and `rhs`; the result is named `name`.
    pub fn build_or(&self, module: &mut Module, name: usize, lhs: Value, rhs: Value) -> (v: Value)
        requires
            self.ready(old(module)),
        ensures
            v == (Value::Instruction { name }),
            old(module).emitted(
                final(module),
                self.position.unwrap(),
                InstructionView { name, opcode: Opcode::Or, operands: seq![lhs, rhs] },
            ),
    {
        self.emit_binary(module, name, Opcode::Or, lhs, rhs)
    }

    /// Emits the left shift of `lhs` and `rhs`; the result is named `name`.
    pub fn build_shl(&self, module: &mut Module, name: usize, lhs: Value, rhs: Value) -> (v: Value)
        requires
            self.ready(old(module)),
        ensures
            v == (Value::Instruction { name }),
            old(module).emitted(
                final(module),
                self.position.unwrap(),
                InstructionView { name, opcode: Opcode::Shl, operands: seq![lhs, rhs] },
            ),
    {
        self.emit_binary(module, name, Opcode::Shl, lhs, rhs)
    }

    /// Emits the arithmetic right shift of `lhs` and `rhs`; the result is named `name`.
    pub fn build_ashr(&self, module: &mut Module, name: usize, lhs: Value, rhs: Value) -> (v: Value)
        requires
            self.ready(old(module)),
        ensures
            v == (Value::Instruction { name }),
            old(module).emitted(
                final(module),
                self.position.unwrap(),
                InstructionView { name, opcode: Opcode::AShr, operands: seq![lhs, rhs] },
            ),
    {
        self.emit_binary(module, name, Opcode::AShr, lhs, rhs)
    }

    /// Emits the logical right shift of `lhs` and `rhs`; the result is named `name`.
    pub fn build_lshr(&self, module: &mut Module, name: usize, lhs: Value, rhs: Value) -> (v: Value)
        requires
            self.ready(old(module)),
        ensures
            v == (Value::Instruction { name }),
            old(module).emitted(
                final(module),
                self.position.unwrap(),
                InstructionView { name, opcode: Opcode::LShr, operands: seq![lhs, rhs] },
            ),
    {
        self.emit_binary(module, name, Opcode::LShr, lhs, rhs)
    }
}

} // verus!
