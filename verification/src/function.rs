//! The objects a function is made of: values, blocks and terminators.

use vstd::prelude::*;
use crate::common::Context;
use crate::handle;
use crate::ty;

verus! {

/// How control leaves a block.
#[derive(Debug, PartialEq, Eq, Clone, Copy, Structural)]
pub enum Terminator {
    /// Jump to a block of the same function.
    Branch(handle::Block),
    /// Return a value of the same function.
    Return(handle::Value),
    /// Not set yet.
    Unset,
}

impl Terminator {
    /// Whether the terminator is still unset.
    pub fn is_none(self) -> (unset: bool)
        ensures
            unset == (self is Unset),
    {
        match self {
            Terminator::Unset => true,
            _ => false,
        }
    }
}

/// What a value computes.
#[derive(Debug)]
pub enum ValueKind {
    ConstInt { ty: handle::Type, value: u64 },
    Call { function: handle::Function, parameters: Vec<handle::Value> },
    // arithmetic
    Mul(handle::Value, handle::Value),
    UDiv(handle::Value, handle::Value),
    SDiv(handle::Value, handle::Value),
    URem(handle::Value, handle::Value),
    SRem(handle::Value, handle::Value),
    Add(handle::Value, handle::Value),
    Sub(handle::Value, handle::Value),
    // shifts: `ZShr` fills with zeros, `SShr` with the sign bit
    Shl(handle::Value, handle::Value),
    ZShr(handle::Value, handle::Value),
    SShr(handle::Value, handle::Value),
    // bitwise
    And(handle::Value, handle::Value),
    Xor(handle::Value, handle::Value),
    Or(handle::Value, handle::Value),
    // comparisons: part of the data model, but no block accepts one
    Eq(handle::Value, handle::Value),
    Neq(handle::Value, handle::Value),
    Lt(handle::Value, handle::Value),
    Gt(handle::Value, handle::Value),
    Lte(handle::Value, handle::Value),
    Gte(handle::Value, handle::Value),
    /// A function input. It is created with its function and only referred
    /// to: no block accepts one.
    Parameter(handle::Type),
}

impl ValueKind {
    /// The two operands of an arithmetic, shift, bitwise or comparison kind.
    pub open spec fn operands(self) -> Option<(handle::Value, handle::Value)> {
        match self {
            ValueKind::Mul(l, r)
            | ValueKind::UDiv(l, r)
            | ValueKind::SDiv(l, r)
            | ValueKind::URem(l, r)
            | ValueKind::SRem(l, r)
            | ValueKind::Add(l, r)
            | ValueKind::Sub(l, r)
            | ValueKind::Shl(l, r)
            | ValueKind::ZShr(l, r)
            | ValueKind::SShr(l, r)
            | ValueKind::And(l, r)
            | ValueKind::Xor(l, r)
            | ValueKind::Or(l, r)
            | ValueKind::Eq(l, r)
            | ValueKind::Neq(l, r)
            | ValueKind::Lt(l, r)
            | ValueKind::Gt(l, r)
            | ValueKind::Lte(l, r)
            | ValueKind::Gte(l, r) => Some((l, r)),
            _ => None,
        }
    }

    /// Whether this is one of the six comparison kinds.
    pub open spec fn is_comparison(self) -> bool {
        self is Eq || self is Neq || self is Lt || self is Gt || self is Lte || self is Gte
    }

    /// Returns the two operands of a kind that has two.
    pub fn binary_operands(&self) -> (ops: Option<(handle::Value, handle::Value)>)
        ensures
            ops == self.operands(),
    {
        match self {
            ValueKind::Mul(l, r)
            | ValueKind::UDiv(l, r)
            | ValueKind::SDiv(l, r)
            | ValueKind::URem(l, r)
            | ValueKind::SRem(l, r)
            | ValueKind::Add(l, r)
            | ValueKind::Sub(l, r)
            | ValueKind::Shl(l, r)
            | ValueKind::ZShr(l, r)
            | ValueKind::SShr(l, r)
            | ValueKind::And(l, r)
            | ValueKind::Xor(l, r)
            | ValueKind::Or(l, r)
            | ValueKind::Eq(l, r)
            | ValueKind::Neq(l, r)
            | ValueKind::Lt(l, r)
            | ValueKind::Gt(l, r)
            | ValueKind::Lte(l, r)
            | ValueKind::Gte(l, r) => Some((*l, *r)),
            _ => None,
        }
    }

    /// Returns whether this is a comparison.
    pub fn comparison(&self) -> (yes: bool)
        ensures
            yes == self.is_comparison(),
    {
        match self {
            ValueKind::Eq(_, _)
            | ValueKind::Neq(_, _)
            | ValueKind::Lt(_, _)
            | ValueKind::Gt(_, _)
            | ValueKind::Lte(_, _)
            | ValueKind::Gte(_, _) => true,
            _ => false,
        }
    }
}

/// One instruction result, or a function input.
#[derive(Debug)]
pub struct Value {
    /// Position in the owning function's value list.
    pub number: usize,
    pub kind: ValueKind,
    /// Index of the owning function.
    pub func: usize,
}

/// A basic block: an ordered instruction list and one terminator.
#[derive(Debug)]
pub struct Block {
    /// Position in the owning function's block list.
    pub number: usize,
    pub terminator: Terminator,
    /// The numbers of the values built in this block, oldest first.
    pub block_values: Vec<usize>,
    /// Index of the owning function.
    pub func: usize,
}

/// A named, typed unit of code.
pub struct Function {
    pub name: String,
    pub ty: ty::Function,
    pub blocks: Context<Block>,
    pub values: Context<Value>,
}

/// Two functions are equal when they have the same name.
impl PartialEq for Function {
    fn eq(&self, rhs: &Self) -> (equal: bool) {
        self.name == rhs.name
    }
}

impl Eq for Function {

}

impl vstd::std_specs::cmp::PartialEqSpecImpl for Function {
    open spec fn obeys_eq_spec() -> bool {
        true
    }

    open spec fn eq_spec(&self, rhs: &Self) -> bool {
        self.name@ == rhs.name@
    }
}

impl Function {
    /// The signature.
    pub fn ty(&self) -> (ty: &ty::Function)
        ensures
            *ty == self.ty,
    {
        &self.ty
    }

    /// The name.
    pub fn name(&self) -> (name: &str)
        ensures
            name@ == self.name@,
    {
        self.name.as_str()
    }
}

/// The derived type of value `n` of function `f`: the stored type of a
/// constant or a parameter, the callee's output type for a call, and the type
/// of the left operand for an arithmetic, shift or bitwise value.
pub open spec fn type_of(funcs: Seq<Function>, f: int, n: int) -> handle::Type
    decreases n,
{
    if 0 <= f < funcs.len() && 0 <= n < funcs[f].values@.len() {
        match funcs[f].values@[n].kind {
            ValueKind::ConstInt { ty, .. } => ty,
            ValueKind::Parameter(ty) => ty,
            ValueKind::Call { function, .. } => if function.index < funcs.len() {
                funcs[function.index as int].ty.output
            } else {
                handle::Type { index: 0 }
            },
            kind => match kind.operands() {
                Some((l, _)) => if !kind.is_comparison() && l.number < n {
                    type_of(funcs, f, l.number as int)
                } else {
                    handle::Type { index: 0 }
                },
                None => handle::Type { index: 0 },
            },
        }
    } else {
        handle::Type { index: 0 }
    }
}

/// An operand of value `n` of function `f` is an earlier value of `f`.
pub open spec fn operand_ok(v: handle::Value, f: int, n: int) -> bool {
    v.func == f && v.number < n
}

/// Whether `kind` may stand as value `n` of function `f`: every type and
/// function it names exists, its operands are earlier values of `f`, the two
/// operands of an operation have one type, and the arguments of a call match
/// the callee's inputs in number and type. No comparison may stand.
pub open spec fn kind_ok(funcs: Seq<Function>, types: nat, f: int, n: int, kind: ValueKind) -> bool {
    match kind {
        ValueKind::ConstInt { ty, .. } => ty.index < types,
        ValueKind::Parameter(ty) => n < funcs[f].ty.inputs@.len() && ty == funcs[f].ty.inputs@[n],
        ValueKind::Call { function, parameters } => {
            &&& function.index < funcs.len()
            &&& parameters@.len() == funcs[function.index as int].ty.inputs@.len()
            &&& forall|k: int|
                0 <= k < parameters@.len() ==> operand_ok(#[trigger] parameters@[k], f, n)
                    && type_of(funcs, f, parameters@[k].number as int)
                    == funcs[function.index as int].ty.inputs@[k]
        },
        kind => {
            &&& !kind.is_comparison()
            &&& kind.operands() matches Some((l, r))
            &&& operand_ok(l, f, n)
            &&& operand_ok(r, f, n)
            &&& type_of(funcs, f, l.number as int) == type_of(funcs, f, r.number as int)
        },
    }
}

/// Value `n` of function `f` knows its place, is a parameter exactly when its
/// number is below the input count, and holds a kind that may stand there.
pub open spec fn value_ok(funcs: Seq<Function>, types: nat, f: int, n: int) -> bool {
    let v = funcs[f].values@[n];
    &&& v.number == n
    &&& v.func == f
    &&& (n < funcs[f].ty.inputs@.len()) == (v.kind is Parameter)
    &&& kind_ok(funcs, types, f, n, v.kind)
}

/// Block `b` of function `f` knows its place, lists only built values of `f`
/// (never a parameter) in the order they were built, and its terminator, once
/// set, names a block or a value of `f`.
pub open spec fn block_ok(funcs: Seq<Function>, f: int, b: int) -> bool {
    let blk = funcs[f].blocks@[b];
    &&& blk.number == b
    &&& blk.func == f
    &&& forall|k: int|
        0 <= k < blk.block_values@.len() ==> funcs[f].ty.inputs@.len()
            <= #[trigger] blk.block_values@[k] < funcs[f].values@.len()
    &&& forall|i: int, j: int|
        0 <= i < j < blk.block_values@.len() ==> blk.block_values@[i] < blk.block_values@[j]
    &&& match blk.terminator {
        Terminator::Branch(target) => target.func == f && target.number < funcs[f].blocks@.len(),
        Terminator::Return(v) => v.func == f && v.number < funcs[f].values@.len(),
        Terminator::Unset => true,
    }
}

/// Whether some block of function `f` lists value `n`.
pub open spec fn has_home(funcs: Seq<Function>, f: int, n: int) -> bool {
    exists|b: int, k: int|
        0 <= b < funcs[f].blocks@.len() && 0 <= k < funcs[f].blocks@[b].block_values@.len()
            && #[trigger] funcs[f].blocks@[b].block_values@[k] == n
}

/// Every value of function `f` that is no parameter is listed by a block, and
/// no two blocks list the same value.
pub open spec fn listing_ok(funcs: Seq<Function>, f: int) -> bool {
    &&& forall|n: int|
        funcs[f].ty.inputs@.len() <= n < funcs[f].values@.len() ==> #[trigger] has_home(funcs, f, n)
    &&& forall|b: int, c: int, i: int, j: int|
        0 <= b < funcs[f].blocks@.len() && 0 <= c < funcs[f].blocks@.len() && b != c && 0 <= i
            < funcs[f].blocks@[b].block_values@.len() && 0 <= j
            < funcs[f].blocks@[c].block_values@.len()
            ==> #[trigger] funcs[f].blocks@[b].block_values@[i]
            != #[trigger] funcs[f].blocks@[c].block_values@[j]
}

/// Function `f` has a signature over existing types, one parameter per input
/// in front of its other values, only well-formed values and blocks, and each
/// value that is no parameter in exactly one block.
pub open spec fn function_ok(funcs: Seq<Function>, types: nat, f: int) -> bool {
    &&& listing_ok(funcs, f)
    &&& funcs[f].ty.output.index < types
    &&& forall|k: int|
        0 <= k < funcs[f].ty.inputs@.len() ==> (#[trigger] funcs[f].ty.inputs@[k]).index < types
    &&& funcs[f].ty.inputs@.len() <= funcs[f].values@.len()
    &&& forall|n: int| 0 <= n < funcs[f].values@.len() ==> #[trigger] value_ok(funcs, types, f, n)
    &&& forall|b: int| 0 <= b < funcs[f].blocks@.len() ==> #[trigger] block_ok(funcs, f, b)
}

/// Every function of the program is well formed.
pub open spec fn program_ok(funcs: Seq<Function>, types: nat) -> bool {
    forall|f: int| 0 <= f < funcs.len() ==> #[trigger] function_ok(funcs, types, f)
}

/// `after` holds every function of `before` with its name and signature, and every
/// value of `before` at its number.
pub open spec fn grows(before: Seq<Function>, after: Seq<Function>) -> bool {
    &&& before.len() <= after.len()
    &&& forall|g: int|
        0 <= g < before.len() ==> {
            &&& (#[trigger] after[g]).ty == before[g].ty
            &&& after[g].name == before[g].name
            &&& before[g].values@.len() <= after[g].values@.len()
            &&& before[g].blocks@.len() <= after[g].blocks@.len()
            &&& forall|n: int|
                0 <= n < before[g].values@.len() ==> #[trigger] after[g].values@[n]
                    == before[g].values@[n]
        }
}

/// A value keeps its type while the program grows.
pub proof fn lemma_type_of_grows(before: Seq<Function>, after: Seq<Function>, types: nat, f: int, n: int)
    requires
        program_ok(before, types),
        grows(before, after),
        0 <= f < before.len(),
        0 <= n < before[f].values@.len(),
    ensures
        type_of(after, f, n) == type_of(before, f, n),
    decreases n,
{
    assert(function_ok(before, types, f));
    assert(value_ok(before, types, f, n));
    assert(after[f].values@[n] == before[f].values@[n]);
    let kind = before[f].values@[n].kind;
    match kind {
        ValueKind::ConstInt { .. } => {},
        ValueKind::Parameter(_) => {},
        ValueKind::Call { function, .. } => {
            assert(after[function.index as int].ty == before[function.index as int].ty);
        },
        _ => {
            let (l, r) = kind.operands().unwrap();
            lemma_type_of_grows(before, after, types, f, l.number as int);
        },
    }
}

/// A kind that may stand at a place may still stand there after the program
/// has grown.
pub proof fn lemma_kind_ok_grows(
    before: Seq<Function>,
    after: Seq<Function>,
    types: nat,
    more_types: nat,
    f: int,
    n: int,
    kind: ValueKind,
)
    requires
        program_ok(before, types),
        grows(before, after),
        types <= more_types,
        0 <= f < before.len(),
        0 <= n <= before[f].values@.len(),
        kind_ok(before, types, f, n, kind),
    ensures
        kind_ok(after, more_types, f, n, kind),
{
    assert(after[f].ty == before[f].ty);
    match kind {
        ValueKind::ConstInt { .. } => {},
        ValueKind::Parameter(_) => {},
        ValueKind::Call { function, parameters } => {
            assert(after[function.index as int].ty == before[function.index as int].ty);
            assert forall|k: int| 0 <= k < parameters@.len() implies operand_ok(
                #[trigger] parameters@[k],
                f,
                n,
            ) && type_of(after, f, parameters@[k].number as int)
                == after[function.index as int].ty.inputs@[k] by {
                lemma_type_of_grows(before, after, types, f, parameters@[k].number as int);
            }
        },
        _ => {
            let (l, r) = kind.operands().unwrap();
            lemma_type_of_grows(before, after, types, f, l.number as int);
            lemma_type_of_grows(before, after, types, f, r.number as int);
        },
    }
}

/// A block that is left as it was stays well formed while its function grows.
pub proof fn lemma_block_ok_grows(before: Seq<Function>, after: Seq<Function>, f: int, b: int)
    requires
        grows(before, after),
        0 <= f < before.len(),
        0 <= b < before[f].blocks@.len(),
        block_ok(before, f, b),
        after[f].blocks@[b] == before[f].blocks@[b],
    ensures
        block_ok(after, f, b),
{
    assert(after[f].ty == before[f].ty);
}

/// The listing of a function holds on while its blocks list what they listed.
pub proof fn lemma_listing_kept(before: Seq<Function>, after: Seq<Function>, f: int)
    requires
        listing_ok(before, f),
        after[f].ty == before[f].ty,
        after[f].values@.len() == before[f].values@.len(),
        after[f].blocks@.len() == before[f].blocks@.len(),
        forall|b: int|
            0 <= b < before[f].blocks@.len() ==> (#[trigger] after[f].blocks@[b]).block_values@
                == before[f].blocks@[b].block_values@,
    ensures
        listing_ok(after, f),
{
    assert forall|n: int|
        after[f].ty.inputs@.len() <= n < after[f].values@.len() implies #[trigger] has_home(
        after,
        f,
        n,
    ) by {
        assert(has_home(before, f, n));
        let (b, k) = choose|b: int, k: int|
            0 <= b < before[f].blocks@.len() && 0 <= k < before[f].blocks@[b].block_values@.len()
                && #[trigger] before[f].blocks@[b].block_values@[k] == n;
        assert(after[f].blocks@[b].block_values@[k] == n);
    }
    assert forall|b: int, c: int, i: int, j: int|
        0 <= b < after[f].blocks@.len() && 0 <= c < after[f].blocks@.len() && b != c && 0 <= i
            < after[f].blocks@[b].block_values@.len() && 0 <= j
            < after[f].blocks@[c].block_values@.len() implies
            #[trigger] after[f].blocks@[b].block_values@[i]
            != #[trigger] after[f].blocks@[c].block_values@[j] by {
        assert(before[f].blocks@[b].block_values@[i] != before[f].blocks@[c].block_values@[j]);
    }
}

/// The listing of a function holds on when an empty block is appended.
pub proof fn lemma_listing_block_added(before: Seq<Function>, after: Seq<Function>, f: int)
    requires
        listing_ok(before, f),
        after[f].ty == before[f].ty,
        after[f].values@.len() == before[f].values@.len(),
        after[f].blocks@.len() == before[f].blocks@.len() + 1,
        after[f].blocks@.drop_last() == before[f].blocks@,
        after[f].blocks@.last().block_values@.len() == 0,
    ensures
        listing_ok(after, f),
{
    assert forall|b: int| 0 <= b < before[f].blocks@.len() implies #[trigger] after[f].blocks@[b]
        == before[f].blocks@[b] by {
        assert(after[f].blocks@.drop_last()[b] == before[f].blocks@[b]);
    }
    assert forall|n: int|
        after[f].ty.inputs@.len() <= n < after[f].values@.len() implies #[trigger] has_home(
        after,
        f,
        n,
    ) by {
        assert(has_home(before, f, n));
        let (b, k) = choose|b: int, k: int|
            0 <= b < before[f].blocks@.len() && 0 <= k < before[f].blocks@[b].block_values@.len()
                && #[trigger] before[f].blocks@[b].block_values@[k] == n;
        assert(after[f].blocks@[b].block_values@[k] == n);
    }
    assert forall|b: int, c: int, i: int, j: int|
        0 <= b < after[f].blocks@.len() && 0 <= c < after[f].blocks@.len() && b != c && 0 <= i
            < after[f].blocks@[b].block_values@.len() && 0 <= j
            < after[f].blocks@[c].block_values@.len() implies
            #[trigger] after[f].blocks@[b].block_values@[i]
            != #[trigger] after[f].blocks@[c].block_values@[j] by {
        assert(after[f].blocks@[b] == before[f].blocks@[b]);
        assert(after[f].blocks@[c] == before[f].blocks@[c]);
        assert(before[f].blocks@[b].block_values@[i] != before[f].blocks@[c].block_values@[j]);
    }
}

/// The listing of a function holds on when a value is appended and block `b`
/// lists it behind what it listed.
pub proof fn lemma_listing_value_added(
    before: Seq<Function>,
    after: Seq<Function>,
    types: nat,
    f: int,
    b: int,
    n: usize,
)
    requires
        function_ok(before, types, f),
        0 <= b < before[f].blocks@.len(),
        n == before[f].values@.len(),
        after[f].ty == before[f].ty,
        after[f].values@.len() == before[f].values@.len() + 1,
        after[f].blocks@.len() == before[f].blocks@.len(),
        forall|c: int|
            0 <= c < before[f].blocks@.len() && c != b ==> #[trigger] after[f].blocks@[c]
                == before[f].blocks@[c],
        after[f].blocks@[b].block_values@ == before[f].blocks@[b].block_values@.push(n),
    ensures
        listing_ok(after, f),
{
    let grown = after[f].blocks@[b].block_values@;
    assert forall|m: int|
        after[f].ty.inputs@.len() <= m < after[f].values@.len() implies #[trigger] has_home(
        after,
        f,
        m,
    ) by {
        if m == n {
            assert(after[f].blocks@[b].block_values@[grown.len() - 1] == n);
        } else {
            assert(has_home(before, f, m));
            let (c, k) = choose|c: int, k: int|
                0 <= c < before[f].blocks@.len() && 0 <= k
                    < before[f].blocks@[c].block_values@.len()
                    && #[trigger] before[f].blocks@[c].block_values@[k] == m;
            if c != b {
                assert(after[f].blocks@[c] == before[f].blocks@[c]);
            }
            assert(after[f].blocks@[c].block_values@[k] == m);
        }
    }
    assert forall|c: int, d: int, i: int, j: int|
        0 <= c < after[f].blocks@.len() && 0 <= d < after[f].blocks@.len() && c != d && 0 <= i
            < after[f].blocks@[c].block_values@.len() && 0 <= j
            < after[f].blocks@[d].block_values@.len() implies
            #[trigger] after[f].blocks@[c].block_values@[i]
            != #[trigger] after[f].blocks@[d].block_values@[j] by {
        assert(block_ok(before, f, c));
        assert(block_ok(before, f, d));
        if c != b {
            assert(after[f].blocks@[c] == before[f].blocks@[c]);
        }
        if d != b {
            assert(after[f].blocks@[d] == before[f].blocks@[d]);
        }
        if c == b && i == grown.len() - 1 {
            assert(before[f].blocks@[d].block_values@[j] < n);
        } else if d == b && j == grown.len() - 1 {
            assert(before[f].blocks@[c].block_values@[i] < n);
        } else {
            assert(before[f].blocks@[c].block_values@[i] != before[f].blocks@[d].block_values@[j]);
        }
    }
}

/// The grown program is well formed if the earlier one was and everything that
/// was added or replaced is.
pub proof fn lemma_program_grows(
    before: Seq<Function>,
    after: Seq<Function>,
    types: nat,
    more_types: nat,
)
    requires
        program_ok(before, types),
        grows(before, after),
        types <= more_types,
        forall|g: int, n: int|
            0 <= g < before.len() && before[g].values@.len() <= n < after[g].values@.len()
                ==> #[trigger] value_ok(after, more_types, g, n),
        forall|g: int, b: int|
            0 <= g < before.len() && 0 <= b < after[g].blocks@.len() ==> #[trigger] block_ok(
                after,
                g,
                b,
            ),
        forall|g: int| 0 <= g < before.len() ==> #[trigger] listing_ok(after, g),
        forall|g: int| before.len() <= g < after.len() ==> #[trigger] function_ok(after, more_types, g),
    ensures
        program_ok(after, more_types),
{
    assert forall|g: int| 0 <= g < after.len() implies #[trigger] function_ok(
        after,
        more_types,
        g,
    ) by {
        if g < before.len() {
            assert(function_ok(before, types, g));
            assert(after[g].ty == before[g].ty);
            assert forall|k: int| 0 <= k < after[g].ty.inputs@.len() implies (
            #[trigger] after[g].ty.inputs@[k]).index < more_types by {
                assert(before[g].ty.inputs@[k].index < types);
            }
            assert forall|n: int| 0 <= n < after[g].values@.len() implies #[trigger] value_ok(
                after,
                more_types,
                g,
                n,
            ) by {
                if n < before[g].values@.len() {
                    assert(value_ok(before, types, g, n));
                    assert(after[g].values@[n] == before[g].values@[n]);
                    let kind = before[g].values@[n].kind;
                    lemma_kind_ok_grows(before, after, types, more_types, g, n, kind);
                }
            }
        }
    }
}

} // verus!
