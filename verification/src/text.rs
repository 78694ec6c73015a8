//! The textual form of a program.
//!
//! ```text
//! define main(i32) -> i32 {
//! bb0:
//!   %1: i32 = call foo()
//!   %2: i32 = add %0 %1
//!   return %2
//! }
//! ```
//!
//! Functions come in creation order, blocks and values in insertion order.
//! Every value is written with its number and its type, every operand as the
//! number of the value it refers to.

use vstd::prelude::*;
use crate::function::{function_ok, block_ok, value_ok, type_of, Block, Function, Terminator, ValueKind};
use crate::handle;
use crate::pcb::Ctxt;
use crate::ty;

verus! {

/// The decimal digit `d`, for `d` below ten.
pub open spec fn digit(d: nat) -> Seq<char> {
    if d == 0 {
        "0"@
    } else if d == 1 {
        "1"@
    } else if d == 2 {
        "2"@
    } else if d == 3 {
        "3"@
    } else if d == 4 {
        "4"@
    } else if d == 5 {
        "5"@
    } else if d == 6 {
        "6"@
    } else if d == 7 {
        "7"@
    } else if d == 8 {
        "8"@
    } else {
        "9"@
    }
}

/// The decimal numeral of `n`, without leading zeros.
pub open spec fn decimal(n: nat) -> Seq<char>
    decreases n,
{
    if n < 10 {
        digit(n)
    } else {
        decimal(n / 10) + digit(n % 10)
    }
}

fn digit_str(d: u64) -> (text: &'static str)
    requires
        d < 10,
    ensures
        text@ == digit(d as nat),
{
    if d == 0 {
        "0"
    } else if d == 1 {
        "1"
    } else if d == 2 {
        "2"
    } else if d == 3 {
        "3"
    } else if d == 4 {
        "4"
    } else if d == 5 {
        "5"
    } else if d == 6 {
        "6"
    } else if d == 7 {
        "7"
    } else if d == 8 {
        "8"
    } else {
        "9"
    }
}

/// Writes `n` as a decimal numeral.
pub fn decimal_string(n: u64) -> (text: String)
    ensures
        text@ == decimal(n as nat),
    decreases n,
{
    if n < 10 {
        digit_str(n).to_owned()
    } else {
        let mut text = decimal_string(n / 10);
        text.append(digit_str(n % 10));
        text
    }
}

impl ty::Type {
    /// `i` and the bit width for an integer type, `bool` for the boolean.
    pub open spec fn text(self) -> Seq<char> {
        match self {
            ty::Type::Integer(size) => "i"@ + decimal(size as nat),
            ty::Type::Bool => "bool"@,
        }
    }

    /// Writes the type.
    pub fn to_string(&self) -> (text: String)
        ensures
            text@ == self.text(),
    {
        match *self {
            ty::Type::Integer(size) => {
                let mut text = "i".to_owned();
                let width = decimal_string(size as u64);
                text.append(width.as_str());
                text
            },
            ty::Type::Bool => "bool".to_owned(),
        }
    }
}

impl ValueKind {
    /// The word that names the operation of a kind with two operands.
    pub open spec fn mnemonic_text(self) -> Seq<char> {
        match self {
            ValueKind::Mul(_, _) => "mul"@,
            ValueKind::UDiv(_, _) => "udiv"@,
            ValueKind::SDiv(_, _) => "sdiv"@,
            ValueKind::URem(_, _) => "urem"@,
            ValueKind::SRem(_, _) => "srem"@,
            ValueKind::Add(_, _) => "add"@,
            ValueKind::Sub(_, _) => "sub"@,
            ValueKind::Shl(_, _) => "shl"@,
            ValueKind::ZShr(_, _) => "zshr"@,
            ValueKind::SShr(_, _) => "sshr"@,
            ValueKind::And(_, _) => "and"@,
            ValueKind::Xor(_, _) => "xor"@,
            ValueKind::Or(_, _) => "or"@,
            ValueKind::Eq(_, _) => "eq"@,
            ValueKind::Neq(_, _) => "neq"@,
            ValueKind::Lt(_, _) => "lt"@,
            ValueKind::Gt(_, _) => "gt"@,
            ValueKind::Lte(_, _) => "lte"@,
            ValueKind::Gte(_, _) => "gte"@,
            ValueKind::ConstInt { .. } => "const"@,
            ValueKind::Call { .. } => "call"@,
            ValueKind::Parameter(_) => "parameter"@,
        }
    }

    /// Returns the word that names the operation.
    pub fn mnemonic(&self) -> (text: &'static str)
        ensures
            text@ == self.mnemonic_text(),
    {
        match self {
            ValueKind::Mul(_, _) => "mul",
            ValueKind::UDiv(_, _) => "udiv",
            ValueKind::SDiv(_, _) => "sdiv",
            ValueKind::URem(_, _) => "urem",
            ValueKind::SRem(_, _) => "srem",
            ValueKind::Add(_, _) => "add",
            ValueKind::Sub(_, _) => "sub",
            ValueKind::Shl(_, _) => "shl",
            ValueKind::ZShr(_, _) => "zshr",
            ValueKind::SShr(_, _) => "sshr",
            ValueKind::And(_, _) => "and",
            ValueKind::Xor(_, _) => "xor",
            ValueKind::Or(_, _) => "or",
            ValueKind::Eq(_, _) => "eq",
            ValueKind::Neq(_, _) => "neq",
            ValueKind::Lt(_, _) => "lt",
            ValueKind::Gt(_, _) => "gt",
            ValueKind::Lte(_, _) => "lte",
            ValueKind::Gte(_, _) => "gte",
            ValueKind::ConstInt { .. } => "const",
            ValueKind::Call { .. } => "call",
            ValueKind::Parameter(_) => "parameter",
        }
    }
}

/// A reference to value `number`: `%` and the number.
pub open spec fn value_ref(number: nat) -> Seq<char> {
    "%"@ + decimal(number)
}

/// The label of block `number`: `bb` and the number.
pub open spec fn block_label(number: nat) -> Seq<char> {
    "bb"@ + decimal(number)
}

/// The first `upto` of `args` as value references, separated by `, `.
pub open spec fn arguments_text(args: Seq<handle::Value>, upto: int) -> Seq<char>
    decreases upto,
{
    if upto <= 0 {
        Seq::empty()
    } else if upto == 1 {
        value_ref(args[0].number as nat)
    } else {
        arguments_text(args, upto - 1) + ", "@ + value_ref(args[upto - 1].number as nat)
    }
}

/// The first `upto` of `inputs` as types, separated by `, `.
pub open spec fn inputs_text(types: Seq<ty::Type>, inputs: Seq<handle::Type>, upto: int) -> Seq<
    char,
>
    decreases upto,
{
    if upto <= 0 {
        Seq::empty()
    } else if upto == 1 {
        types[inputs[0].index as int].text()
    } else {
        inputs_text(types, inputs, upto - 1) + ", "@ + types[inputs[upto - 1].index as int].text()
    }
}

/// A signature: the inputs in parentheses, `->`, and the output.
pub open spec fn signature_text(types: Seq<ty::Type>, sig: ty::Function) -> Seq<char> {
    "("@ + inputs_text(types, sig.inputs@, sig.inputs@.len() as int) + ") -> "@
        + types[sig.output.index as int].text()
}

/// What stands behind the `=` of a value line: the literal of a constant,
/// `call`, the callee's name and the arguments in parentheses, or the word of
/// an operation and its two operands.
pub open spec fn kind_text(funcs: Seq<Function>, kind: ValueKind) -> Seq<char> {
    match kind {
        ValueKind::ConstInt { value, .. } => decimal(value as nat),
        ValueKind::Call { function, parameters } => "call "@ + funcs[function.index as int].name@
            + "("@ + arguments_text(parameters@, parameters@.len() as int) + ")"@,
        ValueKind::Parameter(_) => kind.mnemonic_text(),
        kind => match kind.operands() {
            Some((l, r)) => kind.mnemonic_text() + " "@ + value_ref(l.number as nat) + " "@
                + value_ref(r.number as nat),
            None => Seq::empty(),
        },
    }
}

/// The line of value `n` of function `f`: two blanks, the value's reference,
/// `: `, its type, ` = `, what it computes, and a line feed.
pub open spec fn value_line(types: Seq<ty::Type>, funcs: Seq<Function>, f: int, n: int) -> Seq<
    char,
> {
    "  "@ + value_ref(n as nat) + ": "@ + types[type_of(funcs, f, n).index as int].text() + " = "@
        + kind_text(funcs, funcs[f].values@[n].kind) + "\n"@
}

/// `branch` and the target's label, `return` and the value's reference, or
/// nothing for a terminator that is not set.
pub open spec fn terminator_text(terminator: Terminator) -> Seq<char> {
    match terminator {
        Terminator::Branch(target) => "branch "@ + block_label(target.number as nat),
        Terminator::Return(v) => "return "@ + value_ref(v.number as nat),
        Terminator::Unset => Seq::empty(),
    }
}

/// The lines of the first `upto` values that `blk` of function `f` lists.
pub open spec fn lines_text(
    types: Seq<ty::Type>,
    funcs: Seq<Function>,
    f: int,
    blk: Block,
    upto: int,
) -> Seq<char>
    decreases upto,
{
    if upto <= 0 {
        Seq::empty()
    } else {
        lines_text(types, funcs, f, blk, upto - 1) + value_line(
            types,
            funcs,
            f,
            blk.block_values@[upto - 1] as int,
        )
    }
}

/// Block `b` of function `f`: its label and a colon on a line, the lines of
/// its values, and its terminator on a line, indented by two blanks.
pub open spec fn block_text(types: Seq<ty::Type>, funcs: Seq<Function>, f: int, b: int) -> Seq<
    char,
> {
    let blk = funcs[f].blocks@[b];
    block_label(blk.number as nat) + ":\n"@ + lines_text(
        types,
        funcs,
        f,
        blk,
        blk.block_values@.len() as int,
    ) + "  "@ + terminator_text(blk.terminator) + "\n"@
}

/// The first `upto` blocks of function `f`.
pub open spec fn blocks_text(types: Seq<ty::Type>, funcs: Seq<Function>, f: int, upto: int) -> Seq<
    char,
>
    decreases upto,
{
    if upto <= 0 {
        Seq::empty()
    } else {
        blocks_text(types, funcs, f, upto - 1) + block_text(types, funcs, f, upto - 1)
    }
}

/// Function `f`: `define`, the name, the signature and `{` on a line, the
/// blocks, and `}`.
pub open spec fn function_text(types: Seq<ty::Type>, funcs: Seq<Function>, f: int) -> Seq<char> {
    "define "@ + funcs[f].name@ + signature_text(types, funcs[f].ty) + " {\n"@ + blocks_text(
        types,
        funcs,
        f,
        funcs[f].blocks@.len() as int,
    ) + "}"@
}

/// The first `upto` functions, each followed by a line feed.
pub open spec fn program_text(types: Seq<ty::Type>, funcs: Seq<Function>, upto: int) -> Seq<char>
    decreases upto,
{
    if upto <= 0 {
        Seq::empty()
    } else {
        program_text(types, funcs, upto - 1) + function_text(types, funcs, upto - 1) + "\n"@
    }
}

fn value_ref_string(number: usize) -> (text: String)
    ensures
        text@ == value_ref(number as nat),
{
    let mut text = "%".to_owned();
    let digits = decimal_string(number as u64);
    text.append(digits.as_str());
    text
}

fn block_label_string(number: usize) -> (text: String)
    ensures
        text@ == block_label(number as nat),
{
    let mut text = "bb".to_owned();
    let digits = decimal_string(number as u64);
    text.append(digits.as_str());
    text
}

fn arguments_string(args: &Vec<handle::Value>) -> (text: String)
    ensures
        text@ == arguments_text(args@, args@.len() as int),
{
    let mut text = String::new();
    let mut k: usize = 0;
    while k < args.len()
        invariant
            k <= args@.len(),
            text@ == arguments_text(args@, k as int),
        decreases args@.len() - k,
    {
        let reference = value_ref_string(args[k].number);
        if k == 0 {
            text = reference;
        } else {
            text.append(", ");
            text.append(reference.as_str());
        }
        k += 1;
    }
    text
}

/// Writes a terminator.
pub fn terminator_string(terminator: &Terminator) -> (text: String)
    ensures
        text@ == terminator_text(*terminator),
{
    match terminator {
        Terminator::Branch(target) => {
            let mut text = "branch ".to_owned();
            let label = block_label_string(target.number);
            text.append(label.as_str());
            text
        },
        Terminator::Return(v) => {
            let mut text = "return ".to_owned();
            let reference = value_ref_string(v.number);
            text.append(reference.as_str());
            text
        },
        Terminator::Unset => String::new(),
    }
}

impl Ctxt {
    /// The textual form of the whole program.
    pub open spec fn text(&self) -> Seq<char> {
        program_text(self.types(), self.funcs(), self.funcs().len() as int)
    }

    fn signature_string(&self, sig: &ty::Function) -> (text: String)
        requires
            self.signature_refusal(*sig) is None,
        ensures
            text@ == signature_text(self.types(), *sig),
    {
        let mut list = String::new();
        let mut k: usize = 0;
        while k < sig.inputs.len()
            invariant
                self.signature_refusal(*sig) is None,
                k <= sig.inputs@.len(),
                list@ == inputs_text(self.types(), sig.inputs@, k as int),
            decreases sig.inputs@.len() - k,
        {
            assert(self.has_type(sig.inputs@[k as int]));
            let input = self.type_ctxt.store[sig.inputs[k].index].to_string();
            if k == 0 {
                list = input;
            } else {
                list.append(", ");
                list.append(input.as_str());
            }
            k += 1;
        }
        let mut text = "(".to_owned();
        text.append(list.as_str());
        text.append(") -> ");
        let output = self.type_ctxt.store[sig.output.index].to_string();
        text.append(output.as_str());
        text
    }

    fn kind_string(&self, f: usize, n: usize) -> (text: String)
        requires
            self.wf(),
            self.has_value(handle::Value { func: f, number: n }),
        ensures
            text@ == kind_text(self.funcs(), self.funcs()[f as int].values@[n as int].kind),
    {
        proof {
            assert(function_ok(self.funcs(), self.types().len(), f as int));
            assert(value_ok(self.funcs(), self.types().len(), f as int, n as int));
        }
        let kind = &self.func_ctxt.vec[f].values.vec[n].kind;
        match kind {
            ValueKind::ConstInt { value, .. } => decimal_string(*value),
            ValueKind::Call { function, parameters } => {
                let mut text = "call ".to_owned();
                text.append(self.func_ctxt.vec[function.index].name.as_str());
                text.append("(");
                let args = arguments_string(parameters);
                text.append(args.as_str());
                text.append(")");
                text
            },
            ValueKind::Parameter(_) => kind.mnemonic().to_owned(),
            _ => {
                match kind.binary_operands() {
                    Some((l, r)) => {
                        let mut text = kind.mnemonic().to_owned();
                        text.append(" ");
                        let lhs = value_ref_string(l.number);
                        text.append(lhs.as_str());
                        text.append(" ");
                        let rhs = value_ref_string(r.number);
                        text.append(rhs.as_str());
                        text
                    },
                    None => String::new(),
                }
            },
        }
    }

    fn type_string(&self, v: handle::Value) -> (text: String)
        requires
            self.wf(),
            self.has_value(v),
        ensures
            text@ == self.types()[self.value_type(v).index as int].text(),
    {
        let ty = self.type_of_value(v);
        proof {
            self.lemma_value_type_exists(v);
        }
        self.type_ctxt.store[ty.index].to_string()
    }

    fn line_string(&self, f: usize, n: usize) -> (text: String)
        requires
            self.wf(),
            self.has_value(handle::Value { func: f, number: n }),
        ensures
            text@ == value_line(self.types(), self.funcs(), f as int, n as int),
    {
        let mut text = "  ".to_owned();
        let reference = value_ref_string(n);
        text.append(reference.as_str());
        text.append(": ");
        let ty = self.type_string(handle::Value { func: f, number: n });
        text.append(ty.as_str());
        text.append(" = ");
        let kind = self.kind_string(f, n);
        text.append(kind.as_str());
        text.append("\n");
        text
    }

    /// Writes a block: its label, its value lines and its terminator.
    pub fn block_string(&self, blk: handle::Block) -> (text: String)
        requires
            self.wf(),
            self.has_block(blk),
        ensures
            text@ == block_text(self.types(), self.funcs(), blk.func as int, blk.number as int),
    {
        proof {
            assert(function_ok(self.funcs(), self.types().len(), blk.func as int));
            assert(block_ok(self.funcs(), blk.func as int, blk.number as int));
        }
        let block = &self.func_ctxt.vec[blk.func].blocks.vec[blk.number];
        let mut lines = String::new();
        let mut k: usize = 0;
        while k < block.block_values.len()
            invariant
                self.wf(),
                self.has_block(blk),
                *block == self.block_at(blk),
                block_ok(self.funcs(), blk.func as int, blk.number as int),
                k <= block.block_values@.len(),
                lines@ == lines_text(self.types(), self.funcs(), blk.func as int, *block, k as int),
            decreases block.block_values@.len() - k,
        {
            let line = self.line_string(blk.func, block.block_values[k]);
            lines.append(line.as_str());
            k += 1;
        }
        let mut text = block_label_string(block.number);
        text.append(":\n");
        text.append(lines.as_str());
        text.append("  ");
        let terminator = terminator_string(&block.terminator);
        text.append(terminator.as_str());
        text.append("\n");
        text
    }

    /// Writes a function: its header, its blocks and the closing brace.
    pub fn function_string(&self, func: handle::Function) -> (text: String)
        requires
            self.wf(),
            self.has_function(func),
        ensures
            text@ == function_text(self.types(), self.funcs(), func.index as int),
    {
        proof {
            assert(function_ok(self.funcs(), self.types().len(), func.index as int));
        }
        let function = &self.func_ctxt.vec[func.index];
        let mut blocks = String::new();
        let mut b: usize = 0;
        while b < function.blocks.vec.len()
            invariant
                self.wf(),
                self.has_function(func),
                *function == self.funcs()[func.index as int],
                b <= function.blocks@.len(),
                blocks@ == blocks_text(self.types(), self.funcs(), func.index as int, b as int),
            decreases function.blocks@.len() - b,
        {
            let block = self.block_string(handle::Block { func: func.index, number: b });
            blocks.append(block.as_str());
            b += 1;
        }
        let mut text = "define ".to_owned();
        text.append(function.name.as_str());
        let signature = self.signature_string(&function.ty);
        text.append(signature.as_str());
        text.append(" {\n");
        text.append(blocks.as_str());
        text.append("}");
        text
    }

    /// Writes the whole program: every function, in creation order, each
    /// followed by a line feed.
    pub fn to_string(&self) -> (text: String)
        requires
            self.wf(),
        ensures
            text@ == self.text(),
    {
        let mut text = String::new();
        let mut f: usize = 0;
        while f < self.func_ctxt.vec.len()
            invariant
                self.wf(),
                f <= self.funcs().len(),
                text@ == program_text(self.types(), self.funcs(), f as int),
            decreases self.funcs().len() - f,
        {
            let function = self.function_string(handle::Function { index: f });
            text.append(function.as_str());
            text.append("\n");
            f += 1;
        }
        text
    }
}

} // verus!
