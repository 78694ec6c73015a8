use pcb::function::{Terminator, ValueKind};
use pcb::handle::Type;
use pcb::ty;
use pcb::{Block, Ctxt, Error, Function, Value};

fn function(ctxt: &mut Ctxt, name: &str, inputs: Vec<Type>, output: Type) -> Function {
    Function::new(ctxt, name, ty::Function::new(inputs, output)).unwrap()
}

#[test]
fn function_starts_with_one_parameter_per_input() {
    let mut ctxt = Ctxt::new(false);
    let i32t = Type::integer(&mut ctxt, 32);
    let i64t = Type::integer(&mut ctxt, 64);
    let f = function(&mut ctxt, "f", vec![i32t, i64t], i32t);
    assert_eq!(f, Function { index: 0 });
    let data = ctxt.function(f).unwrap();
    assert_eq!(data.name(), "f");
    assert_eq!(data.ty().output(), i32t);
    assert_eq!(data.ty().inputs, vec![i32t, i64t]);
    assert_eq!(data.blocks.len(), 0);
    assert_eq!(data.values.len(), 2);
    let first = f.get_argument(&ctxt, 0).unwrap();
    let second = f.get_argument(&ctxt, 1).unwrap();
    assert_eq!(first, Value { func: 0, number: 0 });
    assert_eq!(second, Value { func: 0, number: 1 });
    assert_eq!(first.ty(&ctxt), Ok(i32t));
    assert_eq!(second.ty(&ctxt), Ok(i64t));
    assert!(matches!(ctxt.value(second).unwrap().kind, ValueKind::Parameter(t) if t == i64t));
    assert_eq!(ctxt.value(second).unwrap().number, 1);
    assert_eq!(ctxt.value(second).unwrap().func, 0);
}

#[test]
fn argument_beyond_the_inputs_is_out_of_range() {
    let mut ctxt = Ctxt::new(false);
    let i32t = Type::integer(&mut ctxt, 32);
    let f = function(&mut ctxt, "f", vec![i32t], i32t);
    assert_eq!(f.get_argument(&ctxt, 1), Err(Error::IndexOutOfRange));
    assert_eq!(f.get_argument(&ctxt, u32::MAX), Err(Error::IndexOutOfRange));
    let g = function(&mut ctxt, "g", vec![], i32t);
    assert_eq!(g.get_argument(&ctxt, 0), Err(Error::IndexOutOfRange));
    assert_eq!(Function { index: 7 }.get_argument(&ctxt, 0), Err(Error::InvalidHandle));
}

#[test]
fn signature_over_unknown_type_is_refused() {
    let mut ctxt = Ctxt::new(false);
    let i32t = Type::integer(&mut ctxt, 32);
    let stranger = Type { index: 5 };
    let r = Function::new(&mut ctxt, "f", ty::Function::new(vec![], stranger));
    assert_eq!(r, Err(Error::InvalidHandle));
    let r = ctxt.add_function("f", ty::Function::new(vec![i32t, stranger], i32t));
    assert_eq!(r, Err(Error::InvalidHandle));
    assert_eq!(ctxt.function_count(), 0);
}

#[test]
fn first_block_of_a_fresh_function_is_number_zero() {
    let mut ctxt = Ctxt::new(false);
    let i32t = Type::integer(&mut ctxt, 32);
    let f = function(&mut ctxt, "f", vec![], i32t);
    let g = function(&mut ctxt, "g", vec![], i32t);
    let entry = Block::append(&mut ctxt, g).unwrap();
    assert_eq!(entry, Block { func: 1, number: 0 });
    let next = g.add_block(&mut ctxt).unwrap();
    assert_eq!(next, Block { func: 1, number: 1 });
    let other = Block::append(&mut ctxt, f).unwrap();
    assert_eq!(other, Block { func: 0, number: 0 });
    let data = ctxt.block(entry).unwrap();
    assert_eq!(data.number, 0);
    assert_eq!(data.func, 1);
    assert!(data.terminator.is_none());
    assert!(data.block_values.is_empty());
    assert_eq!(Block::append(&mut ctxt, Function { index: 2 }), Err(Error::InvalidHandle));
    assert_eq!(ctxt.function(g).unwrap().blocks.len(), 2);
}

#[test]
fn add_checks_operand_types() {
    let mut ctxt = Ctxt::new(false);
    let i32t = Type::integer(&mut ctxt, 32);
    let i64t = Type::integer(&mut ctxt, 64);
    let f = function(&mut ctxt, "f", vec![], i32t);
    let blk = Block::append(&mut ctxt, f).unwrap();
    let a = blk.build_const_int(&mut ctxt, i32t, 1).unwrap();
    let b = blk.build_const_int(&mut ctxt, i64t, 2).unwrap();
    assert_eq!(blk.build_add(&mut ctxt, a, b), Err(Error::TypeMismatch));
    assert_eq!(blk.build_add(&mut ctxt, b, a), Err(Error::TypeMismatch));
    assert_eq!(ctxt.function(f).unwrap().values.len(), 2);
    let sum = blk.build_add(&mut ctxt, a, a).unwrap();
    assert_eq!(sum, Value { func: 0, number: 2 });
    assert_eq!(sum.ty(&ctxt), Ok(i32t));
    assert_eq!(ctxt.descriptor(sum.ty(&ctxt).unwrap()), Some(ty::Type::Integer(32)));
    assert!(matches!(ctxt.value(sum).unwrap().kind, ValueKind::Add(l, r) if l == a && r == a));
    assert_eq!(ctxt.block(blk).unwrap().block_values, vec![0, 1, 2]);
}

#[test]
fn every_operation_takes_the_type_of_its_operands() {
    let mut ctxt = Ctxt::new(false);
    let i8t = Type::integer(&mut ctxt, 8);
    let i16t = Type::integer(&mut ctxt, 16);
    let f = function(&mut ctxt, "f", vec![i16t, i8t], i16t);
    let blk = Block::append(&mut ctxt, f).unwrap();
    let x = f.get_argument(&ctxt, 0).unwrap();
    let y = f.get_argument(&ctxt, 1).unwrap();
    let built = vec![
        blk.build_mul(&mut ctxt, x, x),
        blk.build_udiv(&mut ctxt, x, x),
        blk.build_sdiv(&mut ctxt, x, x),
        blk.build_urem(&mut ctxt, x, x),
        blk.build_srem(&mut ctxt, x, x),
        blk.build_add(&mut ctxt, x, x),
        blk.build_sub(&mut ctxt, x, x),
        blk.build_shl(&mut ctxt, x, x),
        blk.build_zshr(&mut ctxt, x, x),
        blk.build_sshr(&mut ctxt, x, x),
        blk.build_and(&mut ctxt, x, x),
        blk.build_xor(&mut ctxt, x, x),
        blk.build_or(&mut ctxt, x, x),
    ];
    for (i, r) in built.iter().enumerate() {
        let v = r.unwrap();
        assert_eq!(v, Value { func: 0, number: 2 + i });
        assert_eq!(v.ty(&ctxt), Ok(i16t));
    }
    let kinds: Vec<&str> =
        (2..15).map(|n| ctxt.value(Value { func: 0, number: n }).unwrap().kind.mnemonic()).collect();
    assert_eq!(
        kinds,
        vec![
            "mul", "udiv", "sdiv", "urem", "srem", "add", "sub", "shl", "zshr", "sshr", "and",
            "xor", "or"
        ]
    );
    let refused = vec![
        blk.build_mul(&mut ctxt, x, y),
        blk.build_udiv(&mut ctxt, x, y),
        blk.build_sdiv(&mut ctxt, x, y),
        blk.build_urem(&mut ctxt, x, y),
        blk.build_srem(&mut ctxt, x, y),
        blk.build_add(&mut ctxt, x, y),
        blk.build_sub(&mut ctxt, x, y),
        blk.build_shl(&mut ctxt, x, y),
        blk.build_zshr(&mut ctxt, x, y),
        blk.build_sshr(&mut ctxt, x, y),
        blk.build_and(&mut ctxt, x, y),
        blk.build_xor(&mut ctxt, x, y),
        blk.build_or(&mut ctxt, x, y),
    ];
    for r in refused {
        assert_eq!(r, Err(Error::TypeMismatch));
    }
    assert_eq!(ctxt.function(f).unwrap().values.len(), 15);
}

#[test]
fn call_checks_arity_and_types() {
    let mut ctxt = Ctxt::new(false);
    let i32t = Type::integer(&mut ctxt, 32);
    let i64t = Type::integer(&mut ctxt, 64);
    let f = function(&mut ctxt, "f", vec![i32t], i32t);
    let main = function(&mut ctxt, "main", vec![], i64t);
    let blk = Block::append(&mut ctxt, main).unwrap();
    let narrow = blk.build_const_int(&mut ctxt, i32t, 1).unwrap();
    let wide = blk.build_const_int(&mut ctxt, i64t, 2).unwrap();
    assert_eq!(blk.build_call(&mut ctxt, f, &[]), Err(Error::ArityMismatch));
    assert_eq!(blk.build_call(&mut ctxt, f, &[narrow, narrow]), Err(Error::ArityMismatch));
    assert_eq!(blk.build_call(&mut ctxt, f, &[wide]), Err(Error::TypeMismatch));
    let call = blk.build_call(&mut ctxt, f, &[narrow]).unwrap();
    assert_eq!(call, Value { func: 1, number: 2 });
    assert_eq!(call.ty(&ctxt), Ok(i32t));
    match &ctxt.value(call).unwrap().kind {
        ValueKind::Call { function, parameters } => {
            assert_eq!(*function, f);
            assert_eq!(*parameters, vec![narrow]);
        }
        _ => panic!("not a call"),
    }
    assert_eq!(blk.build_call(&mut ctxt, Function { index: 9 }, &[]), Err(Error::InvalidHandle));
}

#[test]
fn call_reports_the_first_argument_that_does_not_fit() {
    let mut ctxt = Ctxt::new(false);
    let i32t = Type::integer(&mut ctxt, 32);
    let i64t = Type::integer(&mut ctxt, 64);
    let f = function(&mut ctxt, "f", vec![i32t, i32t], i32t);
    let g = function(&mut ctxt, "g", vec![i32t], i32t);
    let blk = Block::append(&mut ctxt, g).unwrap();
    let own = g.get_argument(&ctxt, 0).unwrap();
    let foreign = f.get_argument(&ctxt, 0).unwrap();
    let wide = blk.build_const_int(&mut ctxt, i64t, 2).unwrap();
    let missing = Value { func: 1, number: 40 };
    assert_eq!(blk.build_call(&mut ctxt, f, &[wide, foreign]), Err(Error::TypeMismatch));
    assert_eq!(blk.build_call(&mut ctxt, f, &[foreign, wide]), Err(Error::CrossFunctionReference));
    assert_eq!(blk.build_call(&mut ctxt, f, &[own, missing]), Err(Error::InvalidHandle));
    assert_eq!(blk.build_call(&mut ctxt, f, &[own, own]).map(|v| v.number), Ok(2));
}

#[test]
fn terminator_is_set_once() {
    let mut ctxt = Ctxt::new(false);
    let i32t = Type::integer(&mut ctxt, 32);
    let f = function(&mut ctxt, "f", vec![], i32t);
    let blk = Block::append(&mut ctxt, f).unwrap();
    let other = Block::append(&mut ctxt, f).unwrap();
    let zero = blk.build_const_int(&mut ctxt, i32t, 0).unwrap();
    assert_eq!(blk.set_terminator_return(&mut ctxt, zero), Ok(()));
    assert_eq!(ctxt.block(blk).unwrap().terminator, Terminator::Return(zero));
    let late = Error::TerminatorAlreadySet;
    assert_eq!(blk.build_const_int(&mut ctxt, i32t, 1), Err(late));
    assert_eq!(blk.build_call(&mut ctxt, f, &[]), Err(late));
    assert_eq!(blk.build_call(&mut ctxt, Function { index: 9 }, &[zero]), Err(late));
    assert_eq!(blk.build_mul(&mut ctxt, zero, zero), Err(late));
    assert_eq!(blk.build_udiv(&mut ctxt, zero, zero), Err(late));
    assert_eq!(blk.build_sdiv(&mut ctxt, zero, zero), Err(late));
    assert_eq!(blk.build_urem(&mut ctxt, zero, zero), Err(late));
    assert_eq!(blk.build_srem(&mut ctxt, zero, zero), Err(late));
    assert_eq!(blk.build_add(&mut ctxt, zero, zero), Err(late));
    assert_eq!(blk.build_sub(&mut ctxt, zero, zero), Err(late));
    assert_eq!(blk.build_shl(&mut ctxt, zero, zero), Err(late));
    assert_eq!(blk.build_zshr(&mut ctxt, zero, zero), Err(late));
    assert_eq!(blk.build_sshr(&mut ctxt, zero, zero), Err(late));
    assert_eq!(blk.build_and(&mut ctxt, zero, zero), Err(late));
    assert_eq!(blk.build_xor(&mut ctxt, zero, zero), Err(late));
    assert_eq!(blk.build_or(&mut ctxt, zero, Value { func: 3, number: 3 }), Err(late));
    assert_eq!(blk.add_value(&mut ctxt, ValueKind::Eq(zero, zero)), Err(late));
    assert_eq!(blk.set_terminator_return(&mut ctxt, zero), Err(late));
    assert_eq!(blk.set_terminator_branch(&mut ctxt, other), Err(late));
    assert_eq!(blk.build_return(&mut ctxt, zero), Err(late));
    assert_eq!(blk.build_branch(&mut ctxt, other), Err(late));
    assert_eq!(ctxt.block(blk).unwrap().terminator, Terminator::Return(zero));
    assert_eq!(ctxt.block(blk).unwrap().block_values, vec![0]);
    assert_eq!(ctxt.function(f).unwrap().values.len(), 1);
}

#[test]
fn branch_terminates_too() {
    let mut ctxt = Ctxt::new(false);
    let i32t = Type::integer(&mut ctxt, 32);
    let f = function(&mut ctxt, "f", vec![], i32t);
    let blk = Block::append(&mut ctxt, f).unwrap();
    let next = Block::append(&mut ctxt, f).unwrap();
    assert_eq!(blk.build_branch(&mut ctxt, next), Ok(()));
    assert_eq!(ctxt.block(blk).unwrap().terminator, Terminator::Branch(next));
    assert!(ctxt.block(next).unwrap().terminator.is_none());
    assert_eq!(blk.build_const_int(&mut ctxt, i32t, 1), Err(Error::TerminatorAlreadySet));
    assert_eq!(next.build_branch(&mut ctxt, next), Ok(()));
    assert_eq!(ctxt.block(next).unwrap().terminator, Terminator::Branch(next));
}

#[test]
fn branch_to_another_function_is_refused() {
    let mut ctxt = Ctxt::new(false);
    let i32t = Type::integer(&mut ctxt, 32);
    let a = function(&mut ctxt, "a", vec![], i32t);
    let b = function(&mut ctxt, "b", vec![], i32t);
    let in_a = Block::append(&mut ctxt, a).unwrap();
    let in_b = Block::append(&mut ctxt, b).unwrap();
    assert_eq!(in_a.set_terminator_branch(&mut ctxt, in_b), Err(Error::CrossFunctionReference));
    assert_eq!(in_a.build_branch(&mut ctxt, in_b), Err(Error::CrossFunctionReference));
    assert!(ctxt.block(in_a).unwrap().terminator.is_none());
    assert_eq!(
        in_a.set_terminator_branch(&mut ctxt, Block { func: 0, number: 5 }),
        Err(Error::InvalidHandle)
    );
    assert_eq!(in_a.set_terminator_branch(&mut ctxt, in_a), Ok(()));
}

#[test]
fn value_of_another_function_is_refused() {
    let mut ctxt = Ctxt::new(false);
    let i32t = Type::integer(&mut ctxt, 32);
    let a = function(&mut ctxt, "a", vec![i32t], i32t);
    let b = function(&mut ctxt, "b", vec![i32t], i32t);
    let in_a = Block::append(&mut ctxt, a).unwrap();
    let of_a = a.get_argument(&ctxt, 0).unwrap();
    let of_b = b.get_argument(&ctxt, 0).unwrap();
    assert_eq!(in_a.set_terminator_return(&mut ctxt, of_b), Err(Error::CrossFunctionReference));
    assert_eq!(in_a.build_return(&mut ctxt, of_b), Err(Error::CrossFunctionReference));
    assert_eq!(in_a.build_add(&mut ctxt, of_b, of_a), Err(Error::CrossFunctionReference));
    assert_eq!(in_a.build_add(&mut ctxt, of_a, of_b), Err(Error::CrossFunctionReference));
    assert_eq!(
        in_a.build_return(&mut ctxt, Value { func: 0, number: 1 }),
        Err(Error::InvalidHandle)
    );
    assert_eq!(
        in_a.build_add(&mut ctxt, Value { func: 5, number: 0 }, of_b),
        Err(Error::InvalidHandle)
    );
    assert_eq!(in_a.build_return(&mut ctxt, of_a), Ok(()));
}

#[test]
fn unknown_block_takes_nothing() {
    let mut ctxt = Ctxt::new(false);
    let i32t = Type::integer(&mut ctxt, 32);
    let f = function(&mut ctxt, "f", vec![i32t], i32t);
    let x = f.get_argument(&ctxt, 0).unwrap();
    let nowhere = Block { func: 0, number: 0 };
    assert_eq!(nowhere.build_const_int(&mut ctxt, i32t, 1), Err(Error::InvalidHandle));
    assert_eq!(nowhere.build_add(&mut ctxt, x, x), Err(Error::InvalidHandle));
    assert_eq!(nowhere.build_return(&mut ctxt, x), Err(Error::InvalidHandle));
    assert_eq!(nowhere.build_branch(&mut ctxt, nowhere), Err(Error::InvalidHandle));
    assert_eq!(Block { func: 3, number: 0 }.build_call(&mut ctxt, f, &[x]), Err(Error::InvalidHandle));
    assert!(ctxt.block(nowhere).is_none());
}

#[test]
fn constant_needs_a_known_type() {
    let mut ctxt = Ctxt::new(false);
    let i32t = Type::integer(&mut ctxt, 32);
    let f = function(&mut ctxt, "f", vec![], i32t);
    let blk = Block::append(&mut ctxt, f).unwrap();
    assert_eq!(blk.build_const_int(&mut ctxt, Type { index: 1 }, 1), Err(Error::InvalidHandle));
    let max = blk.build_const_int(&mut ctxt, i32t, u64::MAX).unwrap();
    assert!(matches!(
        ctxt.value(max).unwrap().kind,
        ValueKind::ConstInt { ty, value } if ty == i32t && value == u64::MAX
    ));
    assert_eq!(max.ty(&ctxt), Ok(i32t));
}

#[test]
fn comparisons_and_parameters_are_not_built() {
    let mut ctxt = Ctxt::new(false);
    let i32t = Type::integer(&mut ctxt, 32);
    let f = function(&mut ctxt, "f", vec![i32t], i32t);
    let blk = Block::append(&mut ctxt, f).unwrap();
    let x = f.get_argument(&ctxt, 0).unwrap();
    assert_eq!(blk.add_value(&mut ctxt, ValueKind::Eq(x, x)), Err(Error::NotImplemented));
    assert_eq!(blk.add_value(&mut ctxt, ValueKind::Neq(x, x)), Err(Error::NotImplemented));
    assert_eq!(blk.add_value(&mut ctxt, ValueKind::Lt(x, x)), Err(Error::NotImplemented));
    assert_eq!(blk.add_value(&mut ctxt, ValueKind::Gt(x, x)), Err(Error::NotImplemented));
    assert_eq!(blk.add_value(&mut ctxt, ValueKind::Lte(x, x)), Err(Error::NotImplemented));
    assert_eq!(blk.add_value(&mut ctxt, ValueKind::Gte(x, x)), Err(Error::NotImplemented));
    assert_eq!(blk.add_value(&mut ctxt, ValueKind::Parameter(i32t)), Err(Error::ParameterBuilt));
    assert_eq!(ctxt.function(f).unwrap().values.len(), 1);
    assert!(ctxt.block(blk).unwrap().block_values.is_empty());
    let sum = blk.add_value(&mut ctxt, ValueKind::Add(x, x)).unwrap();
    assert_eq!(sum, Value { func: 0, number: 1 });
}

#[test]
fn values_are_numbered_per_function_across_blocks() {
    let mut ctxt = Ctxt::new(false);
    let i32t = Type::integer(&mut ctxt, 32);
    let f = function(&mut ctxt, "f", vec![i32t], i32t);
    let g = function(&mut ctxt, "g", vec![], i32t);
    let first = Block::append(&mut ctxt, f).unwrap();
    let second = Block::append(&mut ctxt, f).unwrap();
    let of_g = Block::append(&mut ctxt, g).unwrap();
    let a = first.build_const_int(&mut ctxt, i32t, 1).unwrap();
    let b = second.build_const_int(&mut ctxt, i32t, 2).unwrap();
    let c = of_g.build_const_int(&mut ctxt, i32t, 3).unwrap();
    let d = first.build_add(&mut ctxt, a, b).unwrap();
    assert_eq!((a.number, b.number, c.number, d.number), (1, 2, 0, 3));
    assert_eq!(ctxt.block(first).unwrap().block_values, vec![1, 3]);
    assert_eq!(ctxt.block(second).unwrap().block_values, vec![2]);
    assert_eq!(ctxt.block(of_g).unwrap().block_values, vec![0]);
    assert_eq!(Value { func: 0, number: 4 }.ty(&ctxt), Err(Error::InvalidHandle));
    assert!(ctxt.value(Value { func: 2, number: 0 }).is_none());
}

#[test]
fn messages_name_the_failure() {
    assert_eq!(
        Error::TerminatorAlreadySet.message(),
        "pcb_assert: attempt to build instruction after a terminator"
    );
    assert_eq!(Error::TypeMismatch.message(), "pcb_assert: lhs and rhs are not of the same type");
    assert_eq!(
        Error::ArityMismatch.message(),
        "pcb_assert: attempt to call a function with the incorrect number of arguments"
    );
    assert_eq!(Error::IndexOutOfRange.message(), "pcb_assert: attempted to get nonexistent argument");
    assert_eq!(Error::NoTerminator.message(), "pcb_assert: no terminator set");
    assert_eq!(Error::NoBlocks.message(), "pcb_assert: function has no associated blocks");
    assert_eq!(Error::ParameterBuilt.message(), "pcb_ice: Parameter should never be built");
    let all = [
        Error::TerminatorAlreadySet,
        Error::TypeMismatch,
        Error::ArityMismatch,
        Error::CrossFunctionReference,
        Error::IndexOutOfRange,
        Error::NotImplemented,
        Error::ParameterBuilt,
        Error::BackendFailure,
        Error::InvalidHandle,
        Error::NoBlocks,
        Error::NoTerminator,
        Error::UndefinedOperand,
    ];
    for (i, a) in all.iter().enumerate() {
        for b in &all[i + 1..] {
            assert_ne!(a.message(), b.message());
        }
    }
}

#[test]
fn functions_are_equal_by_name() {
    let mut ctxt = Ctxt::new(false);
    let i32t = Type::integer(&mut ctxt, 32);
    let i64t = Type::integer(&mut ctxt, 64);
    let a = function(&mut ctxt, "same", vec![], i32t);
    let b = function(&mut ctxt, "same", vec![i64t], i64t);
    let c = function(&mut ctxt, "other", vec![], i32t);
    assert_ne!(a, b);
    assert!(ctxt.function(a).unwrap() == ctxt.function(b).unwrap());
    assert!(ctxt.function(a).unwrap() != ctxt.function(c).unwrap());
    assert_eq!(ctxt.function(a).unwrap().ty(), &pcb::ty::Function::new(vec![], i32t));
    assert_ne!(ctxt.function(a).unwrap().ty(), ctxt.function(b).unwrap().ty());
}

#[test]
fn signature_clone_is_equal() {
    let mut ctxt = Ctxt::new(false);
    let i32t = Type::integer(&mut ctxt, 32);
    let i64t = Type::integer(&mut ctxt, 64);
    let sig = ty::Function::new(vec![i32t, i64t, i32t], i64t);
    let copy = sig.clone();
    assert_eq!(copy, sig);
    assert_eq!(copy.inputs, vec![i32t, i64t, i32t]);
    assert_eq!(copy.output(), i64t);
    let empty = ty::Function::new(vec![], i32t);
    assert_eq!(empty.clone(), empty);
    assert_ne!(empty, sig);
}
