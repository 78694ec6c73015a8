use pcb::handle::Type;
use pcb::text::{decimal_string, terminator_string};
use pcb::function::Terminator;
use pcb::ty;
use pcb::{Block, Ctxt, Function, Value};

#[test]
fn decimal_numerals() {
    assert_eq!(decimal_string(0), "0");
    assert_eq!(decimal_string(7), "7");
    assert_eq!(decimal_string(9), "9");
    assert_eq!(decimal_string(10), "10");
    assert_eq!(decimal_string(99), "99");
    assert_eq!(decimal_string(100), "100");
    assert_eq!(decimal_string(1234567890), "1234567890");
    assert_eq!(decimal_string(u64::MAX), "18446744073709551615");
}

#[test]
fn type_names() {
    assert_eq!(ty::Type::Integer(32).to_string(), "i32");
    assert_eq!(ty::Type::Integer(1).to_string(), "i1");
    assert_eq!(ty::Type::Integer(0).to_string(), "i0");
    assert_eq!(ty::Type::Integer(u32::MAX).to_string(), "i4294967295");
    assert_eq!(ty::Type::Bool.to_string(), "bool");
}

#[test]
fn terminator_lines() {
    assert_eq!(terminator_string(&Terminator::Branch(Block { func: 0, number: 12 })), "branch bb12");
    assert_eq!(terminator_string(&Terminator::Return(Value { func: 0, number: 3 })), "return %3");
    assert_eq!(terminator_string(&Terminator::Unset), "");
}

#[test]
fn empty_context_has_empty_text() {
    assert_eq!(Ctxt::new(false).to_string(), "");
}

#[test]
fn foo_and_main() {
    let mut ctxt = Ctxt::new(false);
    let s32 = Type::integer(&mut ctxt, 32);
    let foo = Function::new(&mut ctxt, "foo", ty::Function::new(vec![], s32)).unwrap();
    let foo_start = Block::append(&mut ctxt, foo).unwrap();
    let foo_ret = foo_start.build_const_int(&mut ctxt, s32, 0).unwrap();
    foo_start.build_return(&mut ctxt, foo_ret).unwrap();

    let main = Function::new(&mut ctxt, "main", ty::Function::new(vec![], s32)).unwrap();
    let main_start = Block::append(&mut ctxt, main).unwrap();
    let main_ret = main_start.build_call(&mut ctxt, foo, &[]).unwrap();
    main_start.build_return(&mut ctxt, main_ret).unwrap();

    assert_eq!(
        ctxt.to_string(),
        "define foo() -> i32 {\n\
         bb0:\n  \
           %0: i32 = 0\n  \
           return %0\n\
         }\n\
         define main() -> i32 {\n\
         bb0:\n  \
           %0: i32 = call foo()\n  \
           return %0\n\
         }\n"
    );
    assert_eq!(
        ctxt.function_string(foo),
        "define foo() -> i32 {\nbb0:\n  %0: i32 = 0\n  return %0\n}"
    );
    assert_eq!(ctxt.block_string(main_start), "bb0:\n  %0: i32 = call foo()\n  return %0\n");
}

#[test]
fn two_blocks_and_a_branch() {
    let mut ctxt = Ctxt::new(false);
    let s32 = Type::integer(&mut ctxt, 32);
    let foo = Function::new(&mut ctxt, "foo", ty::Function::new(vec![], s32)).unwrap();
    let foo_start = Block::append(&mut ctxt, foo).unwrap();
    let foo_ret = foo_start.build_const_int(&mut ctxt, s32, 0).unwrap();
    foo_start.set_terminator_return(&mut ctxt, foo_ret).unwrap();
    let main = Function::new(&mut ctxt, "main", ty::Function::new(vec![], s32)).unwrap();
    let main_start = Block::append(&mut ctxt, main).unwrap();
    let main_end = Block::append(&mut ctxt, main).unwrap();
    let main_ret = main_start.build_call(&mut ctxt, foo, &[]).unwrap();
    main_start.set_terminator_branch(&mut ctxt, main_end).unwrap();
    main_end.build_call(&mut ctxt, foo, &[]).unwrap();
    main_end.set_terminator_return(&mut ctxt, main_ret).unwrap();
    assert_eq!(
        ctxt.function_string(main),
        "define main() -> i32 {\n\
         bb0:\n  \
           %0: i32 = call foo()\n  \
           branch bb1\n\
         bb1:\n  \
           %1: i32 = call foo()\n  \
           return %0\n\
         }"
    );
}

#[test]
fn inputs_arguments_and_operations() {
    let mut ctxt = Ctxt::new(false);
    let i64t = Type::integer(&mut ctxt, 64);
    let i8t = Type::integer(&mut ctxt, 8);
    let boolean = ctxt.get_type(ty::Type::Bool);
    let f = Function::new(&mut ctxt, "f", ty::Function::new(vec![i64t, i8t, i64t], boolean)).unwrap();
    let one = Function::new(&mut ctxt, "one", ty::Function::new(vec![i8t], i8t)).unwrap();
    let blk = Block::append(&mut ctxt, f).unwrap();
    let a = f.get_argument(&ctxt, 0).unwrap();
    let b = f.get_argument(&ctxt, 1).unwrap();
    let c = f.get_argument(&ctxt, 2).unwrap();
    let k = blk.build_const_int(&mut ctxt, i64t, 18446744073709551615).unwrap();
    let m = blk.build_mul(&mut ctxt, a, k).unwrap();
    let z = blk.build_zshr(&mut ctxt, m, c).unwrap();
    let s = blk.build_sshr(&mut ctxt, z, a).unwrap();
    let r = blk.build_call(&mut ctxt, f, &[s, b, m]).unwrap();
    let o = blk.build_call(&mut ctxt, one, &[b]).unwrap();
    let x = blk.build_xor(&mut ctxt, o, b).unwrap();
    assert_eq!((r.number, x.number), (7, 9));
    assert_eq!(
        ctxt.to_string(),
        "define f(i64, i8, i64) -> bool {\n\
         bb0:\n  \
           %3: i64 = 18446744073709551615\n  \
           %4: i64 = mul %0 %3\n  \
           %5: i64 = zshr %4 %2\n  \
           %6: i64 = sshr %5 %0\n  \
           %7: bool = call f(%6, %1, %4)\n  \
           %8: i8 = call one(%1)\n  \
           %9: i8 = xor %8 %1\n  \
           \n\
         }\n\
         define one(i8) -> i8 {\n\
         }\n"
    );
}

#[test]
fn every_mnemonic() {
    let mut ctxt = Ctxt::new(false);
    let i1 = Type::integer(&mut ctxt, 1);
    let f = Function::new(&mut ctxt, "ops", ty::Function::new(vec![i1], i1)).unwrap();
    let blk = Block::append(&mut ctxt, f).unwrap();
    let x = f.get_argument(&ctxt, 0).unwrap();
    blk.build_mul(&mut ctxt, x, x).unwrap();
    blk.build_udiv(&mut ctxt, x, x).unwrap();
    blk.build_sdiv(&mut ctxt, x, x).unwrap();
    blk.build_urem(&mut ctxt, x, x).unwrap();
    blk.build_srem(&mut ctxt, x, x).unwrap();
    blk.build_add(&mut ctxt, x, x).unwrap();
    blk.build_sub(&mut ctxt, x, x).unwrap();
    blk.build_shl(&mut ctxt, x, x).unwrap();
    blk.build_zshr(&mut ctxt, x, x).unwrap();
    blk.build_sshr(&mut ctxt, x, x).unwrap();
    blk.build_and(&mut ctxt, x, x).unwrap();
    blk.build_xor(&mut ctxt, x, x).unwrap();
    let last = blk.build_or(&mut ctxt, x, x).unwrap();
    blk.build_return(&mut ctxt, last).unwrap();
    assert_eq!(
        ctxt.block_string(blk),
        "bb0:\n  \
           %1: i1 = mul %0 %0\n  \
           %2: i1 = udiv %0 %0\n  \
           %3: i1 = sdiv %0 %0\n  \
           %4: i1 = urem %0 %0\n  \
           %5: i1 = srem %0 %0\n  \
           %6: i1 = add %0 %0\n  \
           %7: i1 = sub %0 %0\n  \
           %8: i1 = shl %0 %0\n  \
           %9: i1 = zshr %0 %0\n  \
           %10: i1 = sshr %0 %0\n  \
           %11: i1 = and %0 %0\n  \
           %12: i1 = xor %0 %0\n  \
           %13: i1 = or %0 %0\n  \
           return %13\n"
    );
}
