//! An embeddable intermediate representation for a compiler backend.
//!
//! A frontend creates a [`Ctxt`], adds typed functions to it, appends basic
//! blocks to each function, and fills every block with instructions and one
//! terminator. All objects live in registries owned by the context and are
//! referred to by small copyable handles. Every builder call validates its
//! arguments and reports a violation as an [`Error`] at the call that caused
//! it.
//!
//! ```text
//! let mut ctxt = Ctxt::new(false);
//! let i32 = handle::Type::integer(&mut ctxt, 32);
//! let foo = Function::new(&mut ctxt, "foo", ty::Function::new(vec![], i32))?;
//! let entry = Block::append(&mut ctxt, foo)?;
//! let zero = entry.build_const_int(&mut ctxt, i32, 0)?;
//! entry.build_return(&mut ctxt, zero)?;
//! ```
//!
//! * [`common`]: the registry that owns objects, and the type interner
//! * [`ty`], [`function`]: what is stored: types, signatures, values, blocks
//! * [`handle`]: the handles and the builder calls on them
//! * [`pcb`]: the context, its invariant, and what each call refuses and does
//! * [`invariants`]: what holds of every context
//! * [`text`]: the textual form of a program
//! * [`llvm`], [`lower`]: the target module and the lowering to it
//! * [`backend`]: the boundary to a code generator

pub mod backend;
pub mod common;
pub mod error;
pub mod function;
pub mod handle;
pub mod invariants;
pub mod llvm;
pub mod lower;
pub mod pcb;
pub mod text;
pub mod ty;

pub use error::Error;
pub use handle::{Block, Function, Value};
pub use pcb::Ctxt;
