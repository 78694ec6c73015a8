//! The boundary to a code generator.

use vstd::prelude::*;
use crate::error::Error;
use crate::pcb::Ctxt;

verus! {

/// A code generator. Implement this to add a target.
///
/// A backend walks the functions of the context in creation order, and the
/// blocks and values of each in insertion order, and writes the artifact it
/// produces to `output`. The context is handed over for good.
pub trait Backend {
    /// What this backend says of one run: whether, handed `ctxt` and the flag
    /// `print_extra_info`, it may turn a sink that holds `before` into one
    /// that holds `after` and return `r`. It is a relation, not a function: a
    /// backend whose artifact depends on the machine it runs on admits more
    /// than one outcome. A backend that does not say admits every outcome.
    open spec fn produces(
        ctxt: Ctxt,
        print_extra_info: bool,
        before: Seq<u8>,
        after: Seq<u8>,
        r: Result<(), Error>,
    ) -> bool {
        true
    }

    /// Lowers `ctxt` and appends the artifact to `output`. With
    /// `print_extra_info` set, the backend also shows its own form of the
    /// program before it emits.
    fn build_and_write(
        ctxt: Ctxt,
        output: &mut Vec<u8>,
        print_extra_info: bool,
    ) -> (r: Result<(), Error>)
        requires
            ctxt.wf(),
        ensures
            Self::produces(ctxt, print_extra_info, old(output)@, final(output)@, r),
    ;
}

impl Ctxt {
    /// Hands the context to backend `B`. This ends the life of the context:
    /// no handle that it issued can be used afterwards. The backend is run
    /// once, on this very context, on `output` as it stands and with the flag
    /// as given; what it returns is returned, and `output` is left as the
    /// backend left it.
    pub fn build_and_write<B: Backend>(
        self,
        output: &mut Vec<u8>,
        print_extra_info: bool,
    ) -> (r: Result<(), Error>)
        requires
            self.wf(),
        ensures
            B::produces(self, print_extra_info, old(output)@, final(output)@, r),
    {
        B::build_and_write(self, output, print_extra_info)
    }
}

} // verus!
