use pcb::backend::Backend;
use pcb::handle::Type;
use pcb::llvm::{
    get_int_type, get_type, BasicBlock, Builder, Module, Opcode, OptLevel, Transfer, TypeKind,
};
use pcb::lower::{get_function_type, Llvm};
use pcb::ty;
use pcb::{Block, Ctxt, Error, Function};

fn foo_and_main() -> Ctxt {
    let mut ctxt = Ctxt::new(false);
    let s32 = Type::integer(&mut ctxt, 32);
    let foo = Function::new(&mut ctxt, "foo", ty::Function::new(vec![], s32)).unwrap();
    let foo_start = Block::append(&mut ctxt, foo).unwrap();
    let foo_ret = foo_start.build_const_int(&mut ctxt, s32, 0).unwrap();
    foo_start.build_return(&mut ctxt, foo_ret).unwrap();
    let main = Function::new(&mut ctxt, "main", ty::Function::new(vec![], s32)).unwrap();
    let main_start = Block::append(&mut ctxt, main).unwrap();
    let main_end = Block::append(&mut ctxt, main).unwrap();
    let main_ret = main_start.build_call(&mut ctxt, foo, &[]).unwrap();
    main_start.build_branch(&mut ctxt, main_end).unwrap();
    main_end.build_call(&mut ctxt, foo, &[]).unwrap();
    main_end.build_return(&mut ctxt, main_ret).unwrap();
    ctxt
}

#[test]
fn lowers_foo_and_main() {
    let ctxt = foo_and_main();
    let module = Llvm::build(&ctxt).unwrap();
    assert_eq!(module.functions.len(), 2);

    let foo = &module.functions[0];
    assert_eq!(foo.name, "foo");
    assert!(matches!(
        &foo.ty.kind,
        TypeKind::Function { inputs, output } if inputs.is_empty() && *output == 32
    ));
    assert_eq!(foo.blocks.len(), 1);
    assert_eq!(foo.blocks[0].label, 0);
    assert!(foo.blocks[0].instructions.is_empty());
    assert_eq!(
        foo.blocks[0].transfer,
        Some(Transfer::Ret(pcb::llvm::Value::Constant { bits: 32, value: 0 }))
    );

    let main = &module.functions[1];
    assert_eq!(main.name, "main");
    assert_eq!(main.blocks.len(), 2);
    assert_eq!(main.blocks[0].label, 0);
    assert_eq!(main.blocks[1].label, 1);
    assert_eq!(main.blocks[0].instructions.len(), 1);
    assert_eq!(main.blocks[0].instructions[0].name, 0);
    assert_eq!(main.blocks[0].instructions[0].opcode, Opcode::Call { callee: 0 });
    assert!(main.blocks[0].instructions[0].operands.is_empty());
    assert_eq!(main.blocks[0].transfer, Some(Transfer::Br(BasicBlock { func: 1, index: 1 })));
    assert_eq!(main.blocks[1].instructions.len(), 1);
    assert_eq!(main.blocks[1].instructions[0].name, 1);
    assert_eq!(
        main.blocks[1].transfer,
        Some(Transfer::Ret(pcb::llvm::Value::Instruction { name: 0 }))
    );
}

#[test]
fn lowers_operations_with_their_operands() {
    let mut ctxt = Ctxt::new(false);
    let i16t = Type::integer(&mut ctxt, 16);
    let boolean = ctxt.get_type(ty::Type::Bool);
    let f = Function::new(&mut ctxt, "f", ty::Function::new(vec![i16t, boolean], i16t)).unwrap();
    let blk = Block::append(&mut ctxt, f).unwrap();
    let x = f.get_argument(&ctxt, 0).unwrap();
    let k = blk.build_const_int(&mut ctxt, i16t, 5).unwrap();
    let built = vec![
        blk.build_mul(&mut ctxt, x, k).unwrap(),
        blk.build_udiv(&mut ctxt, x, k).unwrap(),
        blk.build_sdiv(&mut ctxt, x, k).unwrap(),
        blk.build_urem(&mut ctxt, x, k).unwrap(),
        blk.build_srem(&mut ctxt, x, k).unwrap(),
        blk.build_add(&mut ctxt, x, k).unwrap(),
        blk.build_sub(&mut ctxt, x, k).unwrap(),
        blk.build_shl(&mut ctxt, x, k).unwrap(),
        blk.build_zshr(&mut ctxt, x, k).unwrap(),
        blk.build_sshr(&mut ctxt, x, k).unwrap(),
        blk.build_and(&mut ctxt, x, k).unwrap(),
        blk.build_xor(&mut ctxt, x, k).unwrap(),
        blk.build_or(&mut ctxt, x, k).unwrap(),
    ];
    let last = blk.build_add(&mut ctxt, built[0], built[12]).unwrap();
    blk.build_return(&mut ctxt, last).unwrap();

    let module = Llvm::build(&ctxt).unwrap();
    let def = &module.functions[0];
    assert!(matches!(
        &def.ty.kind,
        TypeKind::Function { inputs, output } if *inputs == vec![16, 1] && *output == 16
    ));
    let code = &def.blocks[0].instructions;
    let opcodes: Vec<Opcode> = code.iter().map(|i| i.opcode).collect();
    assert_eq!(
        opcodes,
        vec![
            Opcode::Mul,
            Opcode::UDiv,
            Opcode::SDiv,
            Opcode::URem,
            Opcode::SRem,
            Opcode::Add,
            Opcode::Sub,
            Opcode::Shl,
            Opcode::LShr,
            Opcode::AShr,
            Opcode::And,
            Opcode::Xor,
            Opcode::Or,
            Opcode::Add,
        ]
    );
    let names: Vec<usize> = code.iter().map(|i| i.name).collect();
    assert_eq!(names, (3..17).collect::<Vec<usize>>());
    let parameter = pcb::llvm::Value::Parameter { func: 0, index: 0 };
    let constant = pcb::llvm::Value::Constant { bits: 16, value: 5 };
    for instruction in &code[..13] {
        assert_eq!(instruction.operands, vec![parameter, constant]);
    }
    assert_eq!(
        code[13].operands,
        vec![pcb::llvm::Value::Instruction { name: 3 }, pcb::llvm::Value::Instruction { name: 15 }]
    );
    assert_eq!(
        def.blocks[0].transfer,
        Some(Transfer::Ret(pcb::llvm::Value::Instruction { name: 16 }))
    );
}

#[test]
fn lowers_call_arguments_in_order() {
    let mut ctxt = Ctxt::new(false);
    let i8t = Type::integer(&mut ctxt, 8);
    let callee = Function::new(&mut ctxt, "callee", ty::Function::new(vec![i8t, i8t], i8t)).unwrap();
    let caller = Function::new(&mut ctxt, "caller", ty::Function::new(vec![i8t], i8t)).unwrap();
    let body = Block::append(&mut ctxt, callee).unwrap();
    let first = callee.get_argument(&ctxt, 0).unwrap();
    body.build_return(&mut ctxt, first).unwrap();
    let blk = Block::append(&mut ctxt, caller).unwrap();
    let x = caller.get_argument(&ctxt, 0).unwrap();
    let k = blk.build_const_int(&mut ctxt, i8t, 200).unwrap();
    let call = blk.build_call(&mut ctxt, callee, &[k, x]).unwrap();
    blk.build_return(&mut ctxt, call).unwrap();
    let module = Llvm::build(&ctxt).unwrap();
    let code = &module.functions[1].blocks[0].instructions;
    assert_eq!(code.len(), 1);
    assert_eq!(code[0].opcode, Opcode::Call { callee: 0 });
    assert_eq!(code[0].name, 2);
    assert_eq!(
        code[0].operands,
        vec![
            pcb::llvm::Value::Constant { bits: 8, value: 200 },
            pcb::llvm::Value::Parameter { func: 1, index: 0 }
        ]
    );
    assert_eq!(
        module.functions[0].blocks[0].transfer,
        Some(Transfer::Ret(pcb::llvm::Value::Parameter { func: 0, index: 0 }))
    );
}

#[test]
fn function_without_blocks_is_not_lowered() {
    let mut ctxt = foo_and_main();
    let s32 = Type::integer(&mut ctxt, 32);
    Function::new(&mut ctxt, "bare", ty::Function::new(vec![], s32)).unwrap();
    assert!(matches!(Llvm::build(&ctxt), Err(Error::NoBlocks)));
}

#[test]
fn block_without_terminator_is_not_lowered() {
    let mut ctxt = Ctxt::new(false);
    let s32 = Type::integer(&mut ctxt, 32);
    let f = Function::new(&mut ctxt, "f", ty::Function::new(vec![], s32)).unwrap();
    let first = Block::append(&mut ctxt, f).unwrap();
    let second = Block::append(&mut ctxt, f).unwrap();
    first.build_branch(&mut ctxt, second).unwrap();
    second.build_const_int(&mut ctxt, s32, 0).unwrap();
    assert!(matches!(Llvm::build(&ctxt), Err(Error::NoTerminator)));
}

#[test]
fn value_used_before_it_is_emitted_is_not_lowered() {
    let mut ctxt = Ctxt::new(false);
    let s32 = Type::integer(&mut ctxt, 32);
    let f = Function::new(&mut ctxt, "f", ty::Function::new(vec![], s32)).unwrap();
    let first = Block::append(&mut ctxt, f).unwrap();
    let second = Block::append(&mut ctxt, f).unwrap();
    let late = second.build_const_int(&mut ctxt, s32, 1).unwrap();
    let early = first.build_add(&mut ctxt, late, late).unwrap();
    first.build_branch(&mut ctxt, second).unwrap();
    second.build_return(&mut ctxt, early).unwrap();
    assert!(matches!(Llvm::build(&ctxt), Err(Error::UndefinedOperand)));
}

#[test]
fn returned_value_must_be_emitted_too() {
    let mut ctxt = Ctxt::new(false);
    let s32 = Type::integer(&mut ctxt, 32);
    let f = Function::new(&mut ctxt, "f", ty::Function::new(vec![], s32)).unwrap();
    let first = Block::append(&mut ctxt, f).unwrap();
    let second = Block::append(&mut ctxt, f).unwrap();
    let late = second.build_const_int(&mut ctxt, s32, 1).unwrap();
    first.build_return(&mut ctxt, late).unwrap();
    second.build_return(&mut ctxt, late).unwrap();
    assert!(matches!(Llvm::build(&ctxt), Err(Error::UndefinedOperand)));
}

#[test]
fn first_refusal_in_program_order_decides() {
    let mut ctxt = Ctxt::new(false);
    let s32 = Type::integer(&mut ctxt, 32);
    let f = Function::new(&mut ctxt, "f", ty::Function::new(vec![], s32)).unwrap();
    Function::new(&mut ctxt, "bare", ty::Function::new(vec![], s32)).unwrap();
    Block::append(&mut ctxt, f).unwrap();
    assert!(matches!(Llvm::build(&ctxt), Err(Error::NoTerminator)));
}

#[test]
fn empty_context_lowers_to_empty_module() {
    let module = Llvm::build(&Ctxt::new(true)).unwrap();
    assert!(module.functions.is_empty());
}

#[test]
fn flag_picks_the_level() {
    assert_eq!(Llvm::opt_level(&Ctxt::new(true)), OptLevel::NoOptimization);
    assert_eq!(Llvm::opt_level(&Ctxt::new(false)), OptLevel::DefaultOptimization);
}

#[test]
fn target_types() {
    assert!(matches!(get_int_type(24).kind, TypeKind::Integer(24)));
    assert!(matches!(get_type(&ty::Type::Integer(64)).kind, TypeKind::Integer(64)));
    assert!(matches!(get_type(&ty::Type::Bool).kind, TypeKind::Integer(1)));
    let mut ctxt = Ctxt::new(false);
    let i8t = Type::integer(&mut ctxt, 8);
    let i9t = Type::integer(&mut ctxt, 9);
    let sig = ty::Function::new(vec![i9t, i8t, i9t], i8t);
    assert!(matches!(
        get_function_type(&ctxt, &sig).kind,
        TypeKind::Function { inputs, output } if inputs == vec![9, 8, 9] && output == 8
    ));
    assert_eq!(
        pcb::llvm::Value::const_int(get_int_type(3), 9),
        pcb::llvm::Value::Constant { bits: 3, value: 9 }
    );
    assert_eq!(
        pcb::llvm::Value::get_param(pcb::llvm::Value::Function(4), 2),
        pcb::llvm::Value::Parameter { func: 4, index: 2 }
    );
}

#[test]
fn builder_emits_where_it_is_positioned() {
    let mut module = Module::new();
    let f = module.add_function("f", get_int_type(1));
    let g = module.add_function("g", get_int_type(1));
    assert_eq!(f, pcb::llvm::Value::Function(0));
    assert_eq!(g, pcb::llvm::Value::Function(1));
    let first = BasicBlock::append(&mut module, g, 0);
    let second = BasicBlock::append(&mut module, g, 1);
    assert_eq!(second, BasicBlock { func: 1, index: 1 });
    let mut builder = Builder::new();
    assert_eq!(builder.position, None);
    builder.position_at_end(second);
    let a = pcb::llvm::Value::Constant { bits: 1, value: 1 };
    let r = builder.build_sub(&mut module, 5, a, a);
    assert_eq!(r, pcb::llvm::Value::Instruction { name: 5 });
    let c = builder.build_call(&mut module, 6, f, &[r, a]);
    builder.build_ret(&mut module, c);
    builder.position_at_end(first);
    builder.build_br(&mut module, second);
    assert!(module.functions[0].blocks.is_empty());
    let blocks = &module.functions[1].blocks;
    assert!(blocks[0].instructions.is_empty());
    assert_eq!(blocks[0].transfer, Some(Transfer::Br(second)));
    assert_eq!(blocks[1].instructions.len(), 2);
    assert_eq!(blocks[1].instructions[0].opcode, Opcode::Sub);
    assert_eq!(blocks[1].instructions[0].operands, vec![a, a]);
    assert_eq!(blocks[1].instructions[1].opcode, Opcode::Call { callee: 0 });
    assert_eq!(blocks[1].instructions[1].operands, vec![r, a]);
    assert_eq!(blocks[1].transfer, Some(Transfer::Ret(c)));
}

struct Counting;

impl Backend for Counting {
    fn build_and_write(ctxt: Ctxt, output: &mut Vec<u8>, print_extra_info: bool) -> Result<(), Error> {
        let module = Llvm::build(&ctxt)?;
        output.push(module.functions.len() as u8);
        output.push(print_extra_info as u8);
        Ok(())
    }
}

struct Failing;

impl Backend for Failing {
    fn build_and_write(_: Ctxt, _: &mut Vec<u8>, _: bool) -> Result<(), Error> {
        Err(Error::BackendFailure)
    }
}

#[test]
fn context_is_handed_to_the_backend() {
    let mut output = vec![9];
    assert_eq!(foo_and_main().build_and_write::<Counting>(&mut output, true), Ok(()));
    assert_eq!(output, vec![9, 2, 1]);
    assert_eq!(
        foo_and_main().build_and_write::<Failing>(&mut output, false),
        Err(Error::BackendFailure)
    );
    assert_eq!(output, vec![9, 2, 1]);
}
