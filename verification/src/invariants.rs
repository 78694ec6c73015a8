//! What holds of every context, whatever calls built it.

use vstd::prelude::*;
use crate::error::Error;
use crate::function::{
    block_ok, function_ok, has_home, lemma_type_of_grows, value_ok, Terminator, ValueKind,
};
use crate::handle::{Block, Function, Value};
use crate::pcb::Ctxt;
use crate::ty;

verus! {

impl Ctxt {
    /// Two type handles of a well-formed context are equal exactly when the
    /// types they name are structurally equal, so comparing handles compares
    /// types.
    pub proof fn lemma_type_identity(&self, a: crate::handle::Type, b: crate::handle::Type)
        requires
            self.wf(),
            self.has_type(a),
            self.has_type(b),
        ensures
            (a == b) <==> self.types()[a.index as int] == self.types()[b.index as int],
    {
        self.type_ctxt.lemma_canonical();
    }

    /// A terminated block refuses every builder call, whatever its arguments,
    /// with `TerminatorAlreadySet`: a value of any kind, a call, a branch and
    /// a return.
    pub proof fn lemma_terminated_block_refuses(
        &self,
        blk: Block,
        kind: ValueKind,
        callee: Function,
        args: Seq<Value>,
        target: Block,
        v: Value,
    )
        requires
            self.has_block(blk),
            self.terminated(blk),
        ensures
            self.value_refusal(blk, kind) == Some(Error::TerminatorAlreadySet),
            self.block_call_refusal(blk, callee, args) == Some(Error::TerminatorAlreadySet),
            self.branch_refusal(blk, target) == Some(Error::TerminatorAlreadySet),
            self.return_refusal(blk, v) == Some(Error::TerminatorAlreadySet),
    {
    }

    /// Setting a terminator terminates the block.
    pub proof fn lemma_terminator_set_terminates(
        &self,
        later: &Ctxt,
        blk: Block,
        terminator: Terminator,
    )
        requires
            self.has_block(blk),
            !(terminator is Unset),
            self.terminator_set(later, blk, terminator),
        ensures
            later.has_block(blk),
            later.terminated(blk),
            later.block_at(blk).terminator == terminator,
    {
    }

    /// After a return was set on a block, the block refuses every builder
    /// call with `TerminatorAlreadySet`.
    pub proof fn lemma_one_shot_terminator(
        &self,
        later: &Ctxt,
        blk: Block,
        returned: Value,
        kind: ValueKind,
        callee: Function,
        args: Seq<Value>,
        target: Block,
        v: Value,
    )
        requires
            self.return_refusal(blk, returned) is None,
            self.terminator_set(later, blk, Terminator::Return(returned)),
        ensures
            later.value_refusal(blk, kind) == Some(Error::TerminatorAlreadySet),
            later.block_call_refusal(blk, callee, args) == Some(Error::TerminatorAlreadySet),
            later.branch_refusal(blk, target) == Some(Error::TerminatorAlreadySet),
            later.return_refusal(blk, v) == Some(Error::TerminatorAlreadySet),
    {
        self.lemma_terminator_set_terminates(later, blk, Terminator::Return(returned));
        later.lemma_terminated_block_refuses(blk, kind, callee, args, target, v);
    }

    /// An unterminated block cannot branch to a block of another function, nor
    /// return a value of another function: both are refused with
    /// `CrossFunctionReference`.
    pub proof fn lemma_cross_function_refused(&self, blk: Block, target: Block, v: Value)
        requires
            self.has_block(blk),
            !self.terminated(blk),
        ensures
            self.has_block(target) && target.func != blk.func ==> self.branch_refusal(blk, target)
                == Some(Error::CrossFunctionReference),
            self.has_value(v) && v.func != blk.func ==> self.return_refusal(blk, v) == Some(
                Error::CrossFunctionReference,
            ),
            self.has_value(v) && v.func != blk.func ==> forall|w: Value|
                self.binary_refusal(blk.func, v, w) == Some(Error::CrossFunctionReference),
    {
    }

    /// The first block appended to a fresh function has number 0.
    pub proof fn lemma_first_block_is_entry(
        &self,
        fresh: &Ctxt,
        later: &Ctxt,
        name: Seq<char>,
        ty: ty::Function,
        func: Function,
        blk: Block,
    )
        requires
            self.function_added(fresh, name, ty, func),
            blk.func == func.index,
            fresh.block_added(later, blk),
        ensures
            blk.number == 0,
            later.funcs()[func.index as int].blocks@.len() == 1,
            later.block_at(blk).number == 0,
    {
    }

    /// Nothing extends a context more gently than leaving it alone.
    pub proof fn lemma_extended_by_itself(&self)
        ensures
            self.extended_by(self),
    {
    }

    /// Extension composes.
    pub proof fn lemma_extended_by_transitive(&self, mid: &Ctxt, later: &Ctxt)
        requires
            self.extended_by(mid),
            mid.extended_by(later),
        ensures
            self.extended_by(later),
    {
        let a = self.funcs();
        let b = mid.funcs();
        let c = later.funcs();
        assert forall|g: int| 0 <= g < a.len() implies {
            &&& (#[trigger] c[g]).ty == a[g].ty
            &&& c[g].name == a[g].name
            &&& a[g].values@.len() <= c[g].values@.len()
            &&& a[g].blocks@.len() <= c[g].blocks@.len()
            &&& forall|n: int|
                0 <= n < a[g].values@.len() ==> #[trigger] c[g].values@[n] == a[g].values@[n]
        } by {
            assert(b[g].ty == a[g].ty);
            assert(c[g].ty == b[g].ty);
            assert forall|n: int| 0 <= n < a[g].values@.len() implies #[trigger] c[g].values@[n]
                == a[g].values@[n] by {
                assert(b[g].values@[n] == a[g].values@[n]);
                assert(c[g].values@[n] == b[g].values@[n]);
            }
        }
        assert forall|g: int, k: int|
            0 <= g < a.len() && 0 <= k < a[g].blocks@.len() implies {
            let earlier = a[g].blocks@[k];
            let blk = #[trigger] c[g].blocks@[k];
            &&& earlier.block_values@.is_prefix_of(blk.block_values@)
            &&& !(earlier.terminator is Unset) ==> blk.terminator == earlier.terminator
        } by {
            assert(b[g].ty == a[g].ty);
            let x = a[g].blocks@[k];
            let y = b[g].blocks@[k];
            let z = c[g].blocks@[k];
            assert(x.block_values@.is_prefix_of(y.block_values@));
            assert(y.block_values@.is_prefix_of(z.block_values@));
        }
    }

    /// Interning a type extends the context.
    pub proof fn lemma_interning_extends(&self, later: &Ctxt, variant: ty::Type)
        requires
            later.types() == crate::common::Interner::interned(self.types(), variant),
            later.funcs() == self.funcs(),
            later.optimizes() == self.optimizes(),
        ensures
            self.extended_by(later),
    {
    }

    /// Adding a function extends the context.
    pub proof fn lemma_function_added_extends(
        &self,
        later: &Ctxt,
        name: Seq<char>,
        ty: ty::Function,
        func: Function,
    )
        requires
            self.function_added(later, name, ty, func),
        ensures
            self.extended_by(later),
    {
        assert forall|g: int| 0 <= g < self.funcs().len() implies later.funcs()[g]
            == self.funcs()[g] by {
            assert(later.funcs().drop_last()[g] == self.funcs()[g]);
        }
    }

    /// Appending a block extends the context.
    pub proof fn lemma_block_added_extends(&self, later: &Ctxt, blk: Block)
        requires
            self.has_function(Function { index: blk.func }),
            self.block_added(later, blk),
        ensures
            self.extended_by(later),
    {
        let f = blk.func as int;
        assert forall|g: int, b: int|
            0 <= g < self.funcs().len() && 0 <= b < self.funcs()[g].blocks@.len() implies {
            let earlier = self.funcs()[g].blocks@[b];
            let grown = #[trigger] later.funcs()[g].blocks@[b];
            &&& earlier.block_values@.is_prefix_of(grown.block_values@)
            &&& !(earlier.terminator is Unset) ==> grown.terminator == earlier.terminator
        } by {
            if g == f {
                assert(later.funcs()[f].blocks@.drop_last()[b] == self.funcs()[f].blocks@[b]);
            } else {
                assert(later.funcs()[g] == self.funcs()[g]);
            }
        }
        assert forall|g: int| 0 <= g < self.funcs().len() implies {
            &&& (#[trigger] later.funcs()[g]).ty == self.funcs()[g].ty
            &&& later.funcs()[g].name == self.funcs()[g].name
            &&& self.funcs()[g].values@.len() <= later.funcs()[g].values@.len()
            &&& self.funcs()[g].blocks@.len() <= later.funcs()[g].blocks@.len()
            &&& forall|n: int|
                0 <= n < self.funcs()[g].values@.len() ==> #[trigger] later.funcs()[g].values@[n]
                    == self.funcs()[g].values@[n]
        } by {
            if g != f {
                assert(later.funcs()[g] == self.funcs()[g]);
            }
        }
    }

    /// Building a value extends the context.
    pub proof fn lemma_value_added_extends(&self, later: &Ctxt, blk: Block, v: Value)
        requires
            self.has_block(blk),
            self.value_added(later, blk, v),
        ensures
            self.extended_by(later),
    {
        let f = blk.func as int;
        assert forall|g: int| 0 <= g < self.funcs().len() implies {
            &&& (#[trigger] later.funcs()[g]).ty == self.funcs()[g].ty
            &&& later.funcs()[g].name == self.funcs()[g].name
            &&& self.funcs()[g].values@.len() <= later.funcs()[g].values@.len()
            &&& self.funcs()[g].blocks@.len() <= later.funcs()[g].blocks@.len()
            &&& forall|n: int|
                0 <= n < self.funcs()[g].values@.len() ==> #[trigger] later.funcs()[g].values@[n]
                    == self.funcs()[g].values@[n]
        } by {
            if g != f {
                assert(later.funcs()[g] == self.funcs()[g]);
            } else {
                assert forall|n: int|
                    0 <= n < self.funcs()[g].values@.len() implies #[trigger] later.funcs()[g].values@[n]
                    == self.funcs()[g].values@[n] by {
                    assert(later.funcs()[f].values@.drop_last()[n] == self.funcs()[f].values@[n]);
                }
            }
        }
        assert forall|g: int, b: int|
            0 <= g < self.funcs().len() && 0 <= b < self.funcs()[g].blocks@.len() implies {
            let earlier = self.funcs()[g].blocks@[b];
            let grown = #[trigger] later.funcs()[g].blocks@[b];
            &&& earlier.block_values@.is_prefix_of(grown.block_values@)
            &&& !(earlier.terminator is Unset) ==> grown.terminator == earlier.terminator
        } by {
            if g != f {
                assert(later.funcs()[g] == self.funcs()[g]);
            }
        }
    }

    /// Setting the terminator of an unterminated block extends the context.
    pub proof fn lemma_terminator_set_extends(
        &self,
        later: &Ctxt,
        blk: Block,
        terminator: Terminator,
    )
        requires
            self.has_block(blk),
            !self.terminated(blk),
            self.terminator_set(later, blk, terminator),
        ensures
            self.extended_by(later),
    {
        let f = blk.func as int;
        assert forall|g: int| 0 <= g < self.funcs().len() implies {
            &&& (#[trigger] later.funcs()[g]).ty == self.funcs()[g].ty
            &&& later.funcs()[g].name == self.funcs()[g].name
            &&& self.funcs()[g].values@.len() <= later.funcs()[g].values@.len()
            &&& self.funcs()[g].blocks@.len() <= later.funcs()[g].blocks@.len()
            &&& forall|n: int|
                0 <= n < self.funcs()[g].values@.len() ==> #[trigger] later.funcs()[g].values@[n]
                    == self.funcs()[g].values@[n]
        } by {
            if g != f {
                assert(later.funcs()[g] == self.funcs()[g]);
            }
        }
        assert forall|g: int, b: int|
            0 <= g < self.funcs().len() && 0 <= b < self.funcs()[g].blocks@.len() implies {
            let earlier = self.funcs()[g].blocks@[b];
            let grown = #[trigger] later.funcs()[g].blocks@[b];
            &&& earlier.block_values@.is_prefix_of(grown.block_values@)
            &&& !(earlier.terminator is Unset) ==> grown.terminator == earlier.terminator
        } by {
            if g != f {
                assert(later.funcs()[g] == self.funcs()[g]);
            }
        }
    }

    /// In an extension, every handle still names what it named: a type its
    /// descriptor, a value its kind and its type, and a terminated block its
    /// terminator.
    pub proof fn lemma_handles_persist(&self, later: &Ctxt, blk: Block, v: Value)
        requires
            self.wf(),
            self.extended_by(later),
        ensures
            self.has_block(blk) ==> later.has_block(blk),
            self.has_block(blk) && self.terminated(blk) ==> later.terminated(blk)
                && later.block_at(blk).terminator == self.block_at(blk).terminator,
            self.has_value(v) ==> later.has_value(v) && later.value_at(v) == self.value_at(v)
                && later.value_type(v) == self.value_type(v),
    {
        if self.has_block(blk) {
            assert(later.funcs()[blk.func as int].ty == self.funcs()[blk.func as int].ty);
        }
        if self.has_value(v) {
            assert(later.funcs()[v.func as int].ty == self.funcs()[v.func as int].ty);
            lemma_type_of_grows(
                self.funcs(),
                later.funcs(),
                self.types().len(),
                v.func as int,
                v.number as int,
            );
        }
    }

    /// A block that is terminated refuses every builder call in every
    /// extension of the context: a terminator is set for good.
    pub proof fn lemma_terminated_for_good(
        &self,
        later: &Ctxt,
        blk: Block,
        kind: ValueKind,
        callee: Function,
        args: Seq<Value>,
        target: Block,
        v: Value,
    )
        requires
            self.wf(),
            self.has_block(blk),
            self.terminated(blk),
            self.extended_by(later),
        ensures
            later.value_refusal(blk, kind) == Some(Error::TerminatorAlreadySet),
            later.block_call_refusal(blk, callee, args) == Some(Error::TerminatorAlreadySet),
            later.branch_refusal(blk, target) == Some(Error::TerminatorAlreadySet),
            later.return_refusal(blk, v) == Some(Error::TerminatorAlreadySet),
    {
        self.lemma_handles_persist(later, blk, v);
        later.lemma_terminated_block_refuses(blk, kind, callee, args, target, v);
    }

    /// The derived type of every value in a well-formed context is a type
    /// that the context holds.
    pub proof fn lemma_value_type_exists(&self, v: Value)
        requires
            self.wf(),
            self.has_value(v),
        ensures
            self.has_type(self.value_type(v)),
        decreases v.number,
    {
        assert(function_ok(self.funcs(), self.types().len(), v.func as int));
        assert(value_ok(self.funcs(), self.types().len(), v.func as int, v.number as int));
        let kind = self.value_at(v).kind;
        match kind {
            ValueKind::ConstInt { .. } => {},
            ValueKind::Parameter(ty) => {
                assert(self.funcs()[v.func as int].ty.inputs@[v.number as int] == ty);
            },
            ValueKind::Call { function, .. } => {
                assert(function_ok(self.funcs(), self.types().len(), function.index as int));
            },
            _ => {
                let (l, _) = kind.operands().unwrap();
                self.lemma_value_type_exists(l);
            },
        }
    }

    /// In an extension, every value still has its type.
    pub proof fn lemma_types_kept(&self, later: &Ctxt)
        requires
            self.wf(),
            self.extended_by(later),
        ensures
            self.keeps_types(later),
    {
        assert forall|v: Value| self.has_value(v) implies #[trigger] later.value_type(v)
            == self.value_type(v) by {
            self.lemma_handles_persist(later, Block { func: 0, number: 0 }, v);
        }
    }

    /// Every value of a well-formed context that is no parameter is listed by
    /// exactly one block of its function, at exactly one position; a
    /// parameter is listed by none.
    pub proof fn lemma_value_has_one_home(&self, v: Value)
        requires
            self.wf(),
            self.has_value(v),
        ensures
            !(self.value_at(v).kind is Parameter) <==> has_home(
                self.funcs(),
                v.func as int,
                v.number as int,
            ),
            forall|b: int, c: int, i: int, j: int|
                #![trigger
                    self.funcs()[v.func as int].blocks@[b].block_values@[i],
                    self.funcs()[v.func as int].blocks@[c].block_values@[j]
                ]
                0 <= b < self.funcs()[v.func as int].blocks@.len() && 0 <= c
                    < self.funcs()[v.func as int].blocks@.len() && 0 <= i
                    < self.funcs()[v.func as int].blocks@[b].block_values@.len() && 0 <= j
                    < self.funcs()[v.func as int].blocks@[c].block_values@.len()
                    && self.funcs()[v.func as int].blocks@[b].block_values@[i] == v.number
                    && self.funcs()[v.func as int].blocks@[c].block_values@[j] == v.number ==> b
                    == c && i == j,
    {
        let funcs = self.funcs();
        let f = v.func as int;
        assert(function_ok(funcs, self.types().len(), f));
        assert(value_ok(funcs, self.types().len(), f, v.number as int));
        if has_home(funcs, f, v.number as int) {
            let (b, k) = choose|b: int, k: int|
                0 <= b < funcs[f].blocks@.len() && 0 <= k < funcs[f].blocks@[b].block_values@.len()
                    && #[trigger] funcs[f].blocks@[b].block_values@[k] == v.number as int;
            assert(block_ok(funcs, f, b));
        }
        assert forall|b: int, c: int, i: int, j: int|
            0 <= b < funcs[f].blocks@.len() && 0 <= c < funcs[f].blocks@.len() && 0 <= i
                < funcs[f].blocks@[b].block_values@.len() && 0 <= j
                < funcs[f].blocks@[c].block_values@.len() && funcs[f].blocks@[b].block_values@[i]
                == v.number && funcs[f].blocks@[c].block_values@[j] == v.number implies b == c && i
            == j by {
            assert(block_ok(funcs, f, b));
            if b == c && i != j {
                if i < j {
                    assert(funcs[f].blocks@[b].block_values@[i] < funcs[f].blocks@[b].block_values@[j]);
                } else {
                    assert(funcs[f].blocks@[b].block_values@[j] < funcs[f].blocks@[b].block_values@[i]);
                }
            }
        }
    }

    /// The operands of every operation in a well-formed context are earlier
    /// values of the same function, and they and the result have one type.
    pub proof fn lemma_operands_agree(&self, v: Value)
        requires
            self.wf(),
            self.has_value(v),
            self.value_at(v).kind.operands() is Some,
        ensures
            ({
                let (lhs, rhs) = self.value_at(v).kind.operands().unwrap();
                &&& lhs.func == v.func && lhs.number < v.number
                &&& rhs.func == v.func && rhs.number < v.number
                &&& self.value_type(lhs) == self.value_type(rhs)
                &&& self.value_type(v) == self.value_type(lhs)
                &&& !self.value_at(v).kind.is_comparison()
            }),
    {
        assert(function_ok(self.funcs(), self.types().len(), v.func as int));
        assert(value_ok(self.funcs(), self.types().len(), v.func as int, v.number as int));
    }
}

} // verus!
