//! The context: the root that owns the type interner and every function.

use vstd::prelude::*;
use crate::common::{Context, Interner};
use crate::error::Error;
use crate::function::{
    block_ok, function_ok, grows, kind_ok, lemma_block_ok_grows, lemma_listing_kept,
    lemma_program_grows, listing_ok, operand_ok, program_ok, type_of, value_ok, Block, Function,
    Terminator, Value, ValueKind,
};
use crate::handle;
use crate::ty;

verus! {

/// Owns everything a frontend builds. Handles are only meaningful for the
/// context that issued them.
pub struct Ctxt {
    pub(crate) type_ctxt: Interner,
    pub(crate) func_ctxt: Context<Function>,
    pub(crate) optimize: bool,
}

impl Ctxt {
    /// The interned type descriptors; a type handle is an index into them.
    pub open(crate) spec fn types(&self) -> Seq<ty::Type> {
        self.type_ctxt@
    }

    /// The functions in creation order; a function handle is an index into
    /// them.
    pub open(crate) spec fn funcs(&self) -> Seq<Function> {
        self.func_ctxt@
    }

    /// The flag the context was created with.
    pub open(crate) spec fn optimizes(&self) -> bool {
        self.optimize
    }

    /// The invariant of a context: the interner is consistent and the program
    /// is well formed over the interned types.
    pub open(crate) spec fn wf(&self) -> bool {
        &&& self.type_ctxt.wf()
        &&& program_ok(self.funcs(), self.types().len())
    }

    /// Whether the context issued this type handle.
    pub open spec fn has_type(&self, ty: handle::Type) -> bool {
        ty.index < self.types().len()
    }

    /// Whether the context holds a function under this handle.
    pub open spec fn has_function(&self, func: handle::Function) -> bool {
        func.index < self.funcs().len()
    }

    /// Whether the context holds a block under this handle.
    pub open spec fn has_block(&self, blk: handle::Block) -> bool {
        blk.func < self.funcs().len() && blk.number < self.funcs()[blk.func as int].blocks@.len()
    }

    /// Whether the context holds a value under this handle.
    pub open spec fn has_value(&self, v: handle::Value) -> bool {
        v.func < self.funcs().len() && v.number < self.funcs()[v.func as int].values@.len()
    }

    /// The block that a handle names.
    pub open spec fn block_at(&self, blk: handle::Block) -> Block {
        self.funcs()[blk.func as int].blocks@[blk.number as int]
    }

    /// The value that a handle names.
    pub open spec fn value_at(&self, v: handle::Value) -> Value {
        self.funcs()[v.func as int].values@[v.number as int]
    }

    /// Whether the terminator of a block is set.
    pub open spec fn terminated(&self, blk: handle::Block) -> bool {
        !(self.block_at(blk).terminator is Unset)
    }

    /// The derived type of a value.
    pub open spec fn value_type(&self, v: handle::Value) -> handle::Type {
        type_of(self.funcs(), v.func as int, v.number as int)
    }

    /// A context without types or functions.
    pub fn new(opt: bool) -> (ctxt: Self)
        ensures
            ctxt.wf(),
            ctxt.types() == Seq::<ty::Type>::empty(),
            ctxt.funcs() == Seq::<Function>::empty(),
            ctxt.optimizes() == opt,
    {
        Ctxt { type_ctxt: Interner::new(), func_ctxt: Context::new(), optimize: opt }
    }

    /// Returns the flag the context was created with.
    pub fn optimize(&self) -> (opt: bool)
        ensures
            opt == self.optimizes(),
    {
        self.optimize
    }

    /// `later` holds everything `self` holds, where `self` holds it: every
    /// type and function under its handle, every value under its number, every
    /// block with the values it listed in front, and every terminator that was
    /// set.
    pub open spec fn extended_by(&self, later: &Ctxt) -> bool {
        &&& self.optimizes() == later.optimizes()
        &&& self.types().len() <= later.types().len()
        &&& forall|t: int| 0 <= t < self.types().len() ==> later.types()[t] == self.types()[t]
        &&& grows(self.funcs(), later.funcs())
        &&& forall|g: int, b: int|
            0 <= g < self.funcs().len() && 0 <= b < self.funcs()[g].blocks@.len() ==> {
                let earlier = self.funcs()[g].blocks@[b];
                let blk = #[trigger] later.funcs()[g].blocks@[b];
                &&& earlier.block_values@.is_prefix_of(blk.block_values@)
                &&& !(earlier.terminator is Unset) ==> blk.terminator == earlier.terminator
            }
    }

    /// Every value of `self` has in `later` the type it has in `self`.
    pub open spec fn keeps_types(&self, later: &Ctxt) -> bool {
        forall|v: handle::Value|
            self.has_value(v) ==> #[trigger] later.value_type(v) == self.value_type(v)
    }

    /// Returns the identity of a structural type, interning it on its first
    /// request.
    pub fn get_type(&mut self, ty: ty::Type) -> (id: handle::Type)
        requires
            old(self).wf(),
        ensures
            final(self).wf(),
            old(self).extended_by(final(self)),
            old(self).keeps_types(final(self)),
            final(self).types() == Interner::interned(old(self).types(), ty),
            id.index == Interner::identity(old(self).types(), ty),
            final(self).funcs() == old(self).funcs(),
            final(self).optimizes() == old(self).optimizes(),
            final(self).has_type(id),
            final(self).types()[id.index as int] == ty,
    {
        proof {
            self.type_ctxt.lemma_canonical();
            Interner::lemma_intern_idempotent(self.types(), ty);
        }
        let index = self.type_ctxt.get(ty);
        proof {
            let funcs = self.funcs();
            assert forall|g: int, b: int|
                0 <= g < funcs.len() && 0 <= b < funcs[g].blocks@.len() implies #[trigger] block_ok(
                funcs,
                g,
                b,
            ) by {
                assert(function_ok(funcs, old(self).types().len(), g));
            }
            assert forall|g: int| 0 <= g < funcs.len() implies #[trigger] listing_ok(funcs, g) by {
                assert(function_ok(funcs, old(self).types().len(), g));
            }
            lemma_program_grows(funcs, funcs, old(self).types().len(), self.types().len());
            old(self).lemma_interning_extends(self, ty);
            old(self).lemma_types_kept(self);
        }
        handle::Type { index }
    }

    /// Returns the identity of the integer type of the given bit width.
    pub fn type_int(&mut self, size: u32) -> (id: handle::Type)
        requires
            old(self).wf(),
        ensures
            final(self).wf(),
            old(self).extended_by(final(self)),
            old(self).keeps_types(final(self)),
            final(self).types() == Interner::interned(old(self).types(), ty::Type::Integer(size)),
            id.index == Interner::identity(old(self).types(), ty::Type::Integer(size)),
            final(self).funcs() == old(self).funcs(),
            final(self).optimizes() == old(self).optimizes(),
            final(self).has_type(id),
            final(self).types()[id.index as int] == ty::Type::Integer(size),
    {
        self.get_type(ty::Type::Integer(size))
    }

    /// The descriptor that a type handle names, if the context issued it.
    pub fn descriptor(&self, ty: handle::Type) -> (desc: Option<ty::Type>)
        ensures
            self.has_type(ty) ==> desc == Some(self.types()[ty.index as int]),
            !self.has_type(ty) ==> desc is None,
    {
        self.type_ctxt.lookup(ty.index)
    }

    /// The function that a handle names, if the context issued it.
    pub fn function(&self, func: handle::Function) -> (found: Option<&Function>)
        ensures
            self.has_function(func) ==> found == Some(&self.funcs()[func.index as int]),
            !self.has_function(func) ==> found is None,
    {
        self.func_ctxt.get(func.index)
    }

    /// The block that a handle names, if the context issued it.
    pub fn block(&self, blk: handle::Block) -> (found: Option<&Block>)
        ensures
            self.has_block(blk) ==> found == Some(&self.block_at(blk)),
            !self.has_block(blk) ==> found is None,
    {
        match self.func_ctxt.get(blk.func) {
            Some(func) => func.blocks.get(blk.number),
            None => None,
        }
    }

    /// The value that a handle names, if the context issued it.
    pub fn value(&self, v: handle::Value) -> (found: Option<&Value>)
        ensures
            self.has_value(v) ==> found == Some(&self.value_at(v)),
            !self.has_value(v) ==> found is None,
    {
        match self.func_ctxt.get(v.func) {
            Some(func) => func.values.get(v.number),
            None => None,
        }
    }

    /// The number of functions.
    pub fn function_count(&self) -> (n: usize)
        ensures
            n == self.funcs().len(),
    {
        self.func_ctxt.len()
    }

    // ----- why a call is refused -------------------------------------------

    /// Why a signature cannot be installed: it names a type that the context
    /// did not issue.
    pub open spec fn signature_refusal(&self, ty: ty::Function) -> Option<Error> {
        if self.has_type(ty.output) && forall|k: int|
            0 <= k < ty.inputs@.len() ==> self.has_type(#[trigger] ty.inputs@[k]) {
            None
        } else {
            Some(Error::InvalidHandle)
        }
    }

    /// Why a block takes no builder call: the handle names no block, or the
    /// block is terminated.
    pub open spec fn block_refusal(&self, blk: handle::Block) -> Option<Error> {
        if !self.has_block(blk) {
            Some(Error::InvalidHandle)
        } else if self.terminated(blk) {
            Some(Error::TerminatorAlreadySet)
        } else {
            None
        }
    }

    /// Why `v` cannot be used in function `f`: the handle names no value, or
    /// the value belongs to another function.
    pub open spec fn operand_refusal(&self, f: usize, v: handle::Value) -> Option<Error> {
        if !self.has_value(v) {
            Some(Error::InvalidHandle)
        } else if v.func != f {
            Some(Error::CrossFunctionReference)
        } else {
            None
        }
    }

    /// Why `lhs` and `rhs` cannot be the operands of one operation in function
    /// `f`: the left operand is unusable, else the right one is, else their
    /// types differ.
    pub open spec fn binary_refusal(
        &self,
        f: usize,
        lhs: handle::Value,
        rhs: handle::Value,
    ) -> Option<Error> {
        if self.operand_refusal(f, lhs) is Some {
            self.operand_refusal(f, lhs)
        } else if self.operand_refusal(f, rhs) is Some {
            self.operand_refusal(f, rhs)
        } else if self.value_type(lhs) != self.value_type(rhs) {
            Some(Error::TypeMismatch)
        } else {
            None
        }
    }

    /// Why `arg` cannot be passed for an input of type `want` in function `f`.
    pub open spec fn argument_refusal(
        &self,
        f: usize,
        arg: handle::Value,
        want: handle::Type,
    ) -> Option<Error> {
        if self.operand_refusal(f, arg) is Some {
            self.operand_refusal(f, arg)
        } else if self.value_type(arg) != want {
            Some(Error::TypeMismatch)
        } else {
            None
        }
    }

    /// The refusal of the first argument from position `from` on that cannot
    /// be passed.
    pub open spec fn arguments_refusal(
        &self,
        f: usize,
        args: Seq<handle::Value>,
        inputs: Seq<handle::Type>,
        from: int,
    ) -> Option<Error>
        decreases args.len() - from,
    {
        if from < 0 || from >= args.len() {
            None
        } else if self.argument_refusal(f, args[from], inputs[from]) is Some {
            self.argument_refusal(f, args[from], inputs[from])
        } else {
            self.arguments_refusal(f, args, inputs, from + 1)
        }
    }

    /// Why function `f` cannot call `callee` with `args`: the callee does not
    /// exist, else the argument count is wrong, else some argument cannot be
    /// passed.
    pub open spec fn call_refusal(
        &self,
        f: usize,
        callee: handle::Function,
        args: Seq<handle::Value>,
    ) -> Option<Error> {
        if !self.has_function(callee) {
            Some(Error::InvalidHandle)
        } else if args.len() != self.funcs()[callee.index as int].ty.inputs@.len() {
            Some(Error::ArityMismatch)
        } else {
            self.arguments_refusal(f, args, self.funcs()[callee.index as int].ty.inputs@, 0)
        }
    }

    /// Why a value of `kind` cannot be built in function `f`.
    pub open spec fn kind_refusal(&self, f: usize, kind: ValueKind) -> Option<Error> {
        match kind {
            ValueKind::ConstInt { ty, .. } => if self.has_type(ty) {
                None
            } else {
                Some(Error::InvalidHandle)
            },
            ValueKind::Parameter(_) => Some(Error::ParameterBuilt),
            ValueKind::Call { function, parameters } => self.call_refusal(f, function, parameters@),
            kind => if kind.is_comparison() {
                Some(Error::NotImplemented)
            } else {
                match kind.operands() {
                    Some((l, r)) => self.binary_refusal(f, l, r),
                    None => None,
                }
            },
        }
    }

    /// Why `blk` does not take a value of `kind`: the block takes no builder
    /// call, else the kind cannot be built in the block's function.
    pub open spec fn value_refusal(&self, blk: handle::Block, kind: ValueKind) -> Option<Error> {
        if self.block_refusal(blk) is Some {
            self.block_refusal(blk)
        } else {
            self.kind_refusal(blk.func, kind)
        }
    }

    /// Why `blk` cannot branch to `target`.
    pub open spec fn branch_refusal(&self, blk: handle::Block, target: handle::Block) -> Option<
        Error,
    > {
        if self.block_refusal(blk) is Some {
            self.block_refusal(blk)
        } else if !self.has_block(target) {
            Some(Error::InvalidHandle)
        } else if target.func != blk.func {
            Some(Error::CrossFunctionReference)
        } else {
            None
        }
    }

    /// Why `blk` cannot return `v`.
    pub open spec fn return_refusal(&self, blk: handle::Block, v: handle::Value) -> Option<Error> {
        if self.block_refusal(blk) is Some {
            self.block_refusal(blk)
        } else {
            self.operand_refusal(blk.func, v)
        }
    }

    // ----- what a call changes ---------------------------------------------

    /// `later` is `self` with one function more: named `name`, of signature
    /// `ty`, without blocks, and with one parameter per input as its values.
    pub open spec fn function_added(
        &self,
        later: &Ctxt,
        name: Seq<char>,
        ty: ty::Function,
        func: handle::Function,
    ) -> bool {
        let added = later.funcs()[func.index as int];
        &&& func.index == self.funcs().len()
        &&& later.types() == self.types()
        &&& later.optimizes() == self.optimizes()
        &&& later.funcs().len() == self.funcs().len() + 1
        &&& later.funcs().drop_last() == self.funcs()
        &&& added.name@ == name
        &&& added.ty == ty
        &&& added.blocks@.len() == 0
        &&& added.values@.len() == ty.inputs@.len()
        &&& forall|k: int|
            0 <= k < ty.inputs@.len() ==> (#[trigger] added.values@[k]) == (Value {
                number: k as usize,
                kind: ValueKind::Parameter(ty.inputs@[k]),
                func: func.index,
            })
    }

    /// `later` is `self` with nothing changed but function `f`, whose name and
    /// signature are the same.
    pub open spec fn only_function_changed(&self, later: &Ctxt, f: int) -> bool {
        &&& later.types() == self.types()
        &&& later.optimizes() == self.optimizes()
        &&& later.funcs().len() == self.funcs().len()
        &&& forall|g: int|
            0 <= g < self.funcs().len() && g != f ==> #[trigger] later.funcs()[g] == self.funcs()[g]
        &&& later.funcs()[f].name == self.funcs()[f].name
        &&& later.funcs()[f].ty == self.funcs()[f].ty
    }

    /// `later` is `self` with one empty, unterminated block appended to
    /// function `blk.func`; `blk` is its handle.
    pub open spec fn block_added(&self, later: &Ctxt, blk: handle::Block) -> bool {
        let f = blk.func as int;
        let added = later.block_at(blk);
        &&& self.only_function_changed(later, f)
        &&& blk.number == self.funcs()[f].blocks@.len()
        &&& later.funcs()[f].values@ == self.funcs()[f].values@
        &&& later.funcs()[f].blocks@.len() == self.funcs()[f].blocks@.len() + 1
        &&& later.funcs()[f].blocks@.drop_last() == self.funcs()[f].blocks@
        &&& added.number == blk.number
        &&& added.func == blk.func
        &&& added.terminator is Unset
        &&& added.block_values@.len() == 0
    }

    /// What appending a block to `func` does: refused with `InvalidHandle` and
    /// nothing changed if the context does not hold `func`, else done, with `r`
    /// the handle of the new block.
    pub open spec fn block_appended(
        &self,
        later: &Ctxt,
        func: handle::Function,
        r: Result<handle::Block, Error>,
    ) -> bool {
        if !self.has_function(func) {
            r == Err::<handle::Block, Error>(Error::InvalidHandle) && *later == *self
        } else {
            &&& r matches Ok(blk)
            &&& blk.func == func.index
            &&& self.block_added(later, blk)
        }
    }

    /// `later` is `self` with one value appended to the function of `blk` and
    /// its number appended to the instruction list of `blk`; `v` is the handle
    /// of that value. What kind the value has is for the caller to say.
    pub open spec fn value_added(&self, later: &Ctxt, blk: handle::Block, v: handle::Value) -> bool {
        let f = blk.func as int;
        let b = blk.number as int;
        let n = self.funcs()[f].values@.len();
        let earlier = self.block_at(blk);
        let grown = later.block_at(blk);
        &&& self.only_function_changed(later, f)
        &&& v.func == blk.func
        &&& v.number == n
        &&& later.funcs()[f].values@.len() == n + 1
        &&& later.funcs()[f].values@.drop_last() == self.funcs()[f].values@
        &&& later.value_at(v).number == n
        &&& later.value_at(v).func == blk.func
        &&& later.funcs()[f].blocks@ == self.funcs()[f].blocks@.update(b, grown)
        &&& grown.number == earlier.number
        &&& grown.func == earlier.func
        &&& grown.terminator == earlier.terminator
        &&& grown.block_values@ == earlier.block_values@.push(n as usize)
    }

    /// `later` is `self` with the terminator of `blk` set to `terminator` and
    /// nothing else changed.
    pub open spec fn terminator_set(
        &self,
        later: &Ctxt,
        blk: handle::Block,
        terminator: Terminator,
    ) -> bool {
        let f = blk.func as int;
        let b = blk.number as int;
        &&& self.only_function_changed(later, f)
        &&& later.funcs()[f].values@ == self.funcs()[f].values@
        &&& later.funcs()[f].blocks@ == self.funcs()[f].blocks@.update(
            b,
            Block { terminator, ..self.block_at(blk) },
        )
    }

    // ----- checks ------------------------------------------------------------

    /// Computes the derived type of a value.
    pub fn type_of_value(&self, v: handle::Value) -> (ty: handle::Type)
        requires
            self.wf(),
            self.has_value(v),
        ensures
            ty == self.value_type(v),
    {
        let func = &self.func_ctxt.vec[v.func];
        let mut n = v.number;
        loop
            invariant
                self.wf(),
                v.func < self.funcs().len(),
                *func == self.funcs()[v.func as int],
                n < func.values@.len(),
                type_of(self.funcs(), v.func as int, n as int) == self.value_type(v),
            decreases n,
        {
            proof {
                assert(function_ok(self.funcs(), self.types().len(), v.func as int));
                assert(value_ok(self.funcs(), self.types().len(), v.func as int, n as int));
            }
            let kind = &func.values.vec[n].kind;
            match kind {
                ValueKind::ConstInt { ty, .. } => {
                    return *ty;
                },
                ValueKind::Parameter(ty) => {
                    return *ty;
                },
                ValueKind::Call { function, .. } => {
                    return self.func_ctxt.vec[function.index].ty.output;
                },
                _ => {
                    match kind.binary_operands() {
                        Some((l, _)) => {
                            n = l.number;
                        },
                        None => {
                            return handle::Type { index: 0 };
                        },
                    }
                },
            }
        }
    }

    pub(crate) fn check_signature(&self, ty: &ty::Function) -> (refusal: Option<Error>)
        ensures
            refusal == self.signature_refusal(*ty),
    {
        let types = self.type_ctxt.len();
        if ty.output.index >= types {
            return Some(Error::InvalidHandle);
        }
        let mut k: usize = 0;
        while k < ty.inputs.len()
            invariant
                types == self.types().len(),
                k <= ty.inputs@.len(),
                forall|j: int| 0 <= j < k ==> self.has_type(#[trigger] ty.inputs@[j]),
            decreases ty.inputs@.len() - k,
        {
            if ty.inputs[k].index >= types {
                return Some(Error::InvalidHandle);
            }
            k += 1;
        }
        None
    }

    pub(crate) fn check_block(&self, blk: handle::Block) -> (refusal: Option<Error>)
        ensures
            refusal == self.block_refusal(blk),
    {
        match self.block(blk) {
            None => Some(Error::InvalidHandle),
            Some(b) => if b.terminator.is_none() {
                None
            } else {
                Some(Error::TerminatorAlreadySet)
            },
        }
    }

    pub(crate) fn check_operand(&self, f: usize, v: handle::Value) -> (refusal: Option<Error>)
        ensures
            refusal == self.operand_refusal(f, v),
    {
        match self.value(v) {
            None => Some(Error::InvalidHandle),
            Some(_) => if v.func != f {
                Some(Error::CrossFunctionReference)
            } else {
                None
            },
        }
    }

    pub(crate) fn check_binary(
        &self,
        f: usize,
        lhs: handle::Value,
        rhs: handle::Value,
    ) -> (refusal: Option<Error>)
        requires
            self.wf(),
        ensures
            refusal == self.binary_refusal(f, lhs, rhs),
    {
        if let Some(e) = self.check_operand(f, lhs) {
            return Some(e);
        }
        if let Some(e) = self.check_operand(f, rhs) {
            return Some(e);
        }
        if self.type_of_value(lhs) != self.type_of_value(rhs) {
            Some(Error::TypeMismatch)
        } else {
            None
        }
    }

    pub(crate) fn check_argument(
        &self,
        f: usize,
        arg: handle::Value,
        want: handle::Type,
    ) -> (refusal: Option<Error>)
        requires
            self.wf(),
        ensures
            refusal == self.argument_refusal(f, arg, want),
    {
        if let Some(e) = self.check_operand(f, arg) {
            return Some(e);
        }
        if self.type_of_value(arg) != want {
            Some(Error::TypeMismatch)
        } else {
            None
        }
    }

    pub(crate) fn check_call(
        &self,
        f: usize,
        callee: handle::Function,
        args: &[handle::Value],
    ) -> (refusal: Option<Error>)
        requires
            self.wf(),
        ensures
            refusal == self.call_refusal(f, callee, args@),
    {
        let target = match self.function(callee) {
            None => {
                return Some(Error::InvalidHandle);
            },
            Some(target) => target,
        };
        if args.len() != target.ty.inputs.len() {
            return Some(Error::ArityMismatch);
        }
        let mut k: usize = 0;
        while k < args.len()
            invariant
                self.wf(),
                self.has_function(callee),
                *target == self.funcs()[callee.index as int],
                args@.len() == target.ty.inputs@.len(),
                k <= args@.len(),
                self.arguments_refusal(f, args@, target.ty.inputs@, k as int)
                    == self.arguments_refusal(f, args@, target.ty.inputs@, 0),
            decreases args@.len() - k,
        {
            if let Some(e) = self.check_argument(f, args[k], target.ty.inputs[k]) {
                return Some(e);
            }
            k += 1;
        }
        None
    }

    pub(crate) fn check_kind(&self, f: usize, kind: &ValueKind) -> (refusal: Option<Error>)
        requires
            self.wf(),
        ensures
            refusal == self.kind_refusal(f, *kind),
    {
        match kind {
            ValueKind::ConstInt { ty, .. } => if ty.index < self.type_ctxt.len() {
                None
            } else {
                Some(Error::InvalidHandle)
            },
            ValueKind::Parameter(_) => Some(Error::ParameterBuilt),
            ValueKind::Call { function, parameters } => self.check_call(
                f,
                *function,
                parameters.as_slice(),
            ),
            _ => if kind.comparison() {
                Some(Error::NotImplemented)
            } else {
                match kind.binary_operands() {
                    Some((l, r)) => self.check_binary(f, l, r),
                    None => None,
                }
            },
        }
    }

    pub(crate) fn check_value(&self, blk: handle::Block, kind: &ValueKind) -> (refusal: Option<Error>)
        requires
            self.wf(),
        ensures
            refusal == self.value_refusal(blk, *kind),
    {
        if let Some(e) = self.check_block(blk) {
            return Some(e);
        }
        self.check_kind(blk.func, kind)
    }

    // ----- why the invariant survives --------------------------------------

    /// If no argument from `from` on is refused, each of them can be passed.
    pub proof fn lemma_arguments_accepted(
        &self,
        f: usize,
        args: Seq<handle::Value>,
        inputs: Seq<handle::Type>,
        from: int,
    )
        requires
            0 <= from,
            self.arguments_refusal(f, args, inputs, from) is None,
        ensures
            forall|k: int|
                from <= k < args.len() ==> self.argument_refusal(f, #[trigger] args[k], inputs[k])
                    is None,
        decreases args.len() - from,
    {
        if from < args.len() {
            self.lemma_arguments_accepted(f, args, inputs, from + 1);
        }
    }

    /// A kind that is not refused may stand as the next value of its function.
    pub proof fn lemma_accepted_kind_ok(&self, f: usize, kind: ValueKind)
        requires
            self.wf(),
            f < self.funcs().len(),
            self.kind_refusal(f, kind) is None,
        ensures
            !(kind is Parameter),
            kind_ok(
                self.funcs(),
                self.types().len(),
                f as int,
                self.funcs()[f as int].values@.len() as int,
                kind,
            ),
    {
        match kind {
            ValueKind::Call { function, parameters } => {
                let inputs = self.funcs()[function.index as int].ty.inputs@;
                self.lemma_arguments_accepted(f, parameters@, inputs, 0);
                assert forall|k: int| 0 <= k < parameters@.len() implies operand_ok(
                    #[trigger] parameters@[k],
                    f as int,
                    self.funcs()[f as int].values@.len() as int,
                ) && type_of(self.funcs(), f as int, parameters@[k].number as int) == inputs[k] by {
                    assert(self.argument_refusal(f, parameters@[k], inputs[k]) is None);
                }
            },
            _ => {},
        }
    }

    /// Every block of `later` is well formed if `later` is `self` with values
    /// appended to function `f` and the blocks of `f` kept, but for `b`, which
    /// is well formed in `later`.
    pub(crate) proof fn lemma_blocks_stay_ok(&self, later: &Ctxt, f: int, b: int)
        requires
            self.wf(),
            grows(self.funcs(), later.funcs()),
            later.funcs().len() == self.funcs().len(),
            forall|g: int|
                0 <= g < self.funcs().len() && g != f ==> #[trigger] later.funcs()[g]
                    == self.funcs()[g],
            0 <= f < self.funcs().len(),
            later.funcs()[f].blocks@.len() == self.funcs()[f].blocks@.len(),
            forall|c: int|
                0 <= c < self.funcs()[f].blocks@.len() && c != b
                    ==> #[trigger] later.funcs()[f].blocks@[c] == self.funcs()[f].blocks@[c],
            0 <= b < self.funcs()[f].blocks@.len() ==> block_ok(later.funcs(), f, b),
        ensures
            forall|g: int, c: int|
                0 <= g < self.funcs().len() && 0 <= c < later.funcs()[g].blocks@.len()
                    ==> #[trigger] block_ok(later.funcs(), g, c),
    {
        assert forall|g: int, c: int|
            0 <= g < self.funcs().len() && 0 <= c < later.funcs()[g].blocks@.len()
            implies #[trigger] block_ok(later.funcs(), g, c) by {
            assert(function_ok(self.funcs(), self.types().len(), g));
            assert(block_ok(self.funcs(), g, c));
            if g != f {
                assert(later.funcs()[g] == self.funcs()[g]);
            } else if c != b {
                lemma_block_ok_grows(self.funcs(), later.funcs(), f, c);
            }
        }
    }

    /// The listing of every function but `f` holds on if only `f` changes.
    pub(crate) proof fn lemma_listing_of_others(&self, later: &Ctxt, f: int)
        requires
            self.wf(),
            later.funcs().len() == self.funcs().len(),
            forall|g: int|
                0 <= g < self.funcs().len() && g != f ==> #[trigger] later.funcs()[g]
                    == self.funcs()[g],
        ensures
            forall|g: int|
                0 <= g < self.funcs().len() && g != f ==> #[trigger] listing_ok(later.funcs(), g),
    {
        assert forall|g: int| 0 <= g < self.funcs().len() && g != f implies #[trigger] listing_ok(
            later.funcs(),
            g,
        ) by {
            assert(function_ok(self.funcs(), self.types().len(), g));
            assert(later.funcs()[g] == self.funcs()[g]);
            lemma_listing_kept(self.funcs(), later.funcs(), g);
        }
    }

    // ----- functions -------------------------------------------------------

    /// Adds a function named `name` of signature `ty`, with one parameter
    /// value per input, in input order, and without blocks. Refused if the
    /// signature names a type that this context did not issue.
    pub fn add_function(&mut self, name: &str, ty: ty::Function) -> (r: Result<
        handle::Function,
        Error,
    >)
        requires
            old(self).wf(),
        ensures
            final(self).wf(),
            old(self).extended_by(final(self)),
            old(self).keeps_types(final(self)),
            match old(self).signature_refusal(ty) {
                Some(e) => r == Err::<handle::Function, Error>(e) && *final(self) == *old(self),
                None => r matches Ok(func) && old(self).function_added(
                    final(self),
                    name@,
                    ty,
                    func,
                ),
            },
    {
        if let Some(e) = self.check_signature(&ty) {
            proof {
                self.lemma_extended_by_itself();
                self.lemma_types_kept(self);
            }
            return Err(e);
        }
        let index = self.func_ctxt.len();
        let mut values: Context<Value> = Context::new();
        let mut k: usize = 0;
        while k < ty.inputs.len()
            invariant
                k <= ty.inputs@.len(),
                values@.len() == k,
                forall|j: int|
                    0 <= j < k ==> (#[trigger] values@[j]) == (Value {
                        number: j as usize,
                        kind: ValueKind::Parameter(ty.inputs@[j]),
                        func: index,
                    }),
            decreases ty.inputs@.len() - k,
        {
            values.push(Value { number: k, kind: ValueKind::Parameter(ty.inputs[k]), func: index });
            k += 1;
        }
        let func = Function { name: name.to_owned(), ty, blocks: Context::new(), values };
        self.func_ctxt.push(func);
        proof {
            let before = old(self).funcs();
            let after = self.funcs();
            let types = self.types().len();
            assert(after.drop_last() =~= before);
            assert(grows(before, after));
            assert forall|g: int, b: int|
                0 <= g < before.len() && 0 <= b < after[g].blocks@.len() implies #[trigger] block_ok(
                after,
                g,
                b,
            ) by {
                assert(function_ok(before, types, g));
                assert(block_ok(before, g, b));
                lemma_block_ok_grows(before, after, g, b);
            }
            assert forall|n: int| 0 <= n < after[index as int].values@.len() implies #[trigger] value_ok(
                after,
                types,
                index as int,
                n,
            ) by {
                assert(after[index as int].values@[n] == (Value {
                    number: n as usize,
                    kind: ValueKind::Parameter(ty.inputs@[n]),
                    func: index,
                }));
            }
            assert forall|g: int| 0 <= g < before.len() implies #[trigger] listing_ok(after, g) by {
                assert(function_ok(before, types, g));
                assert(after[g] == before[g]);
                lemma_listing_kept(before, after, g);
            }
            assert(listing_ok(after, index as int));
            assert(function_ok(after, types, index as int));
            lemma_program_grows(before, after, types, types);
            old(self).lemma_function_added_extends(
                self,
                name@,
                ty,
                handle::Function { index },
            );
            old(self).lemma_types_kept(self);
        }
        Ok(handle::Function { index })
    }

    // ----- what a builder call promises ------------------------------------

    /// The derived type that a value of `kind` has when it is built in
    /// function `f`.
    pub open spec fn kind_type(&self, f: usize, kind: ValueKind) -> handle::Type {
        match kind {
            ValueKind::ConstInt { ty, .. } => ty,
            ValueKind::Parameter(ty) => ty,
            ValueKind::Call { function, .. } => self.funcs()[function.index as int].ty.output,
            kind => match kind.operands() {
                Some((l, _)) => self.value_type(l),
                None => handle::Type { index: 0 },
            },
        }
    }

    /// What offering `kind` to `blk` does: refused with `r` the reason and
    /// nothing changed, or accepted with `r` the handle of the new value, which
    /// holds `kind` and has the type that `kind` derives.
    pub open spec fn built(
        &self,
        later: &Ctxt,
        blk: handle::Block,
        kind: ValueKind,
        r: Result<handle::Value, Error>,
    ) -> bool {
        match self.value_refusal(blk, kind) {
            Some(e) => r == Err::<handle::Value, Error>(e) && *later == *self,
            None => {
                &&& r matches Ok(v)
                &&& self.value_added(later, blk, v)
                &&& later.value_at(v).kind == kind
                &&& later.value_type(v) == self.kind_type(blk.func, kind)
            },
        }
    }

    /// Why `blk` does not take a call of `callee` with `args`: the block takes
    /// no builder call, else its function cannot make the call.
    pub open spec fn block_call_refusal(
        &self,
        blk: handle::Block,
        callee: handle::Function,
        args: Seq<handle::Value>,
    ) -> Option<Error> {
        if self.block_refusal(blk) is Some {
            self.block_refusal(blk)
        } else {
            self.call_refusal(blk.func, callee, args)
        }
    }

    /// What offering a call of `callee` with `args` to `blk` does.
    pub open spec fn call_built(
        &self,
        later: &Ctxt,
        blk: handle::Block,
        callee: handle::Function,
        args: Seq<handle::Value>,
        r: Result<handle::Value, Error>,
    ) -> bool {
        match self.block_call_refusal(blk, callee, args) {
            Some(e) => r == Err::<handle::Value, Error>(e) && *later == *self,
            None => {
                &&& r matches Ok(v)
                &&& self.value_added(later, blk, v)
                &&& later.value_at(v).kind matches ValueKind::Call { function, parameters }
                &&& function == callee
                &&& parameters@ == args
                &&& later.value_type(v) == self.funcs()[callee.index as int].ty.output
            },
        }
    }

    /// What a call that sets the terminator of `blk` does: refused with `r`
    /// the reason and nothing changed, or done, with the terminator of `blk`
    /// set and nothing else changed.
    pub open spec fn terminated_by(
        &self,
        later: &Ctxt,
        blk: handle::Block,
        refusal: Option<Error>,
        terminator: Terminator,
        r: Result<(), Error>,
    ) -> bool {
        match refusal {
            Some(e) => r == Err::<(), Error>(e) && *later == *self,
            None => r is Ok && self.terminator_set(later, blk, terminator),
        }
    }

    /// The parameter of `func` with index `number`, or why there is none.
    pub open spec fn argument(&self, func: handle::Function, number: u32) -> Result<
        handle::Value,
        Error,
    > {
        if !self.has_function(func) {
            Err(Error::InvalidHandle)
        } else if number >= self.funcs()[func.index as int].ty.inputs@.len() {
            Err(Error::IndexOutOfRange)
        } else {
            Ok(handle::Value { func: func.index, number: number as usize })
        }
    }
}

} // verus!
