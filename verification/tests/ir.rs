use kese::backend::ir::entities::{Block, BlockID, Const, Function, ParamID, Type, ValueID};
use kese::backend::ir::inst::{BlockCall, Inst, Op};
use kese::backend::ir::optimization::folding::FloatOp;
use kese::backend::ir::prelude::{
    CmpPred, ConstantFolder, Context, FunctionSignature, Module, OptimizationPass, Optimizer, types,
};

/// Adds 5 + 6.
#[test]
fn add() {
    let mut context = Context::new();
    let module = context.create_module("main");
    let mut builder = module.builder();

    let sig = FunctionSignature::new().with_return_ty(types::I32);

    let mut function_builder = builder.create_function("add", sig);
    let mut block = function_builder.create_block();

    let five = block.ins(&mut function_builder).i32const(5);
    let six = block.ins(&mut function_builder).i32const(6);
    let result = block.ins(&mut function_builder).iadd(five, six);

    block.ins(&mut function_builder).ret(result);

    function_builder.eat_block(block);
    let function = function_builder.build();

    builder.eat_function(function);

    builder.build();
    println!("{}", module.display());
    assert_eq!(
        module.display(),
        "func i32 : @add() {\nu0():\n  %0 = const i32 : 5\n  %1 = const i32 : 6\n  %2 = iadd %0 %1\n  ret %2\n}"
    );
}

/// Returns 10 if true, 5 if false.
#[test]
fn control_flow() {
    let mut context = Context::new();
    let module = context.create_module("control_flow");
    let mut builder = module.builder();

    let sig = FunctionSignature::new().with_return_ty(types::I32);

    let mut function_builder = builder.create_function("control_flow", sig);

    let mut entry_block = function_builder.create_block();

    let mut true_block = function_builder.create_block();
    let mut false_block = function_builder.create_block();

    let mut return_block = function_builder
        .create_block()
        .with_param(&mut function_builder, types::I32);

    let first_condition = entry_block.ins(&mut function_builder).bool_(true);
    entry_block.ins(&mut function_builder).br(
        first_condition,
        true_block.call(&[]),
        false_block.call(&[]),
    );

    let first_path = true_block.ins(&mut function_builder).i32const(10);
    true_block
        .ins(&mut function_builder)
        .jmp(return_block.call(&[first_path]));

    let second_path = false_block.ins(&mut function_builder).i32const(5);
    false_block
        .ins(&mut function_builder)
        .jmp(return_block.call(&[second_path]));

    let param = return_block.get_param(0);
    return_block.ins(&mut function_builder).ret(param.into());

    function_builder.eat_block(entry_block);
    function_builder.eat_block(true_block);
    function_builder.eat_block(false_block);
    function_builder.eat_block(return_block);

    builder.eat_function(function_builder.build());

    builder.build();
    println!("{}", module.display());
    assert_eq!(
        module.display(),
        "func i32 : @control_flow() {\n\
         u0():\n  %1 = const bool : 1\n  br %1 u1() u2()\n\
         u1():\n  %2 = const i32 : 10\n  jmp u3(%2)\n\
         u2():\n  %3 = const i32 : 5\n  jmp u3(%3)\n\
         u3(i32 %0):\n  ret %0\n}"
    );
}

fn build_folding_example(module: &mut Module) {
    let mut builder = module.builder();

    let sig = FunctionSignature::new();

    let mut function_builder = builder.create_function("const_folding", sig);

    let mut entry_block = function_builder.create_block();

    let five = entry_block.ins(&mut function_builder).i32const(5);
    let six = entry_block.ins(&mut function_builder).i32const(6);
    let r1 = entry_block.ins(&mut function_builder).imul(five, six);

    let three = entry_block.ins(&mut function_builder).i32const(3);
    let r2 = entry_block.ins(&mut function_builder).imul(three, three);

    let r3 = entry_block.ins(&mut function_builder).isub(r1, r2);

    let two = entry_block.ins(&mut function_builder).i32const(2);
    let final_result = entry_block.ins(&mut function_builder).imul(r3, two);

    entry_block.ins(&mut function_builder).ret(final_result);

    function_builder.eat_block(entry_block);

    builder.eat_function(function_builder.build());

    builder.build();
}

/// Evaluates `(5 * 6 - 3 * 3) * 2` and folds it into one constant.
#[test]
fn constant_folding() {
    let mut context = Context::new();
    let module = context.create_module("const_fold");
    build_folding_example(module);
    println!("Unoptimized:\n{}", module.display());

    let mut optimizer = Optimizer::new(module).with_constant_folder();

    optimizer.run();

    println!("Optimized:\n{}", module.display());
    assert_eq!(
        module.display(),
        "func void : @const_folding() {\nu0():\n  %2 = const i32 : 30\n  %4 = const i32 : 9\n  %5 = const i32 : 21\n  %7 = const i32 : 42\n  ret %7\n}"
    );
    let insts = &context.modules()[0].functions[0].blocks[0].insts;
    let is_42 = |inst: &Inst| matches!(inst, Inst::Assign { op: Op::Const(Const::I32(42)), .. });
    assert_eq!(insts.iter().filter(|inst| is_42(inst)).count(), 1);
    assert!(is_42(&insts[insts.len() - 2]));
    assert_eq!(insts[insts.len() - 1], Inst::Ret(ValueID(7, Type::I32)));
}

fn value(id: usize) -> ValueID {
    ValueID(id, Type::I32)
}

fn assign(id: usize, op: Op) -> Inst {
    Inst::Assign { dest: value(id), op }
}

fn constant(id: usize, n: i32) -> Inst {
    assign(id, Op::Const(Const::I32(n)))
}

fn module_of(insts: Vec<Inst>) -> Module {
    Module {
        name: "m".to_string(),
        functions: vec![Function {
            alias: "f".to_string(),
            blocks: vec![Block { id: BlockID(0), insts, params: vec![] }],
            sig: FunctionSignature::new(),
        }],
    }
}

fn fold(insts: Vec<Inst>) -> Vec<Inst> {
    let mut module = module_of(insts);
    ConstantFolder::new().run(&mut module);
    module.functions[0].blocks[0].insts.clone()
}

#[test]
fn folding_keeps_every_folded_result_as_a_constant() {
    let folded = fold(vec![
        constant(0, 5),
        constant(1, 6),
        assign(2, Op::IMul { left: value(0), right: value(1) }),
        constant(3, 3),
        assign(4, Op::IMul { left: value(3), right: value(3) }),
        assign(5, Op::ISub { left: value(2), right: value(4) }),
        constant(6, 2),
        assign(7, Op::IMul { left: value(5), right: value(6) }),
        Inst::Ret(value(7)),
    ]);
    assert_eq!(
        folded,
        vec![constant(2, 30), constant(4, 9), constant(5, 21), constant(7, 42), Inst::Ret(value(7))]
    );
    assert_eq!(folded[folded.len() - 2], constant(7, 42));
    assert_eq!(folded[folded.len() - 1], Inst::Ret(value(7)));
}

#[test]
fn single_folded_return_is_one_constant_and_a_ret() {
    let folded = fold(vec![
        constant(0, 40),
        constant(1, 2),
        assign(2, Op::IAdd { left: value(0), right: value(1) }),
        Inst::Ret(value(2)),
    ]);
    assert_eq!(folded, vec![constant(2, 42), Inst::Ret(value(2))]);
}

#[test]
fn folding_twice_drops_the_folded_constants() {
    let once = fold(vec![
        constant(0, 40),
        constant(1, 2),
        assign(2, Op::IAdd { left: value(0), right: value(1) }),
        Inst::Ret(value(2)),
    ]);
    let twice = fold(once.clone());
    assert_eq!(twice, vec![Inst::Ret(value(2))]);
    assert_ne!(once, twice);
}

#[test]
fn folding_is_idempotent_where_nothing_was_folded() {
    let once = fold(vec![
        constant(0, 40),
        assign(2, Op::IAdd { left: value(0), right: value(1) }),
        Inst::Ret(value(2)),
    ]);
    assert_eq!(
        once,
        vec![assign(2, Op::IAdd { left: value(0), right: value(1) }), Inst::Ret(value(2))]
    );
    assert_eq!(fold(once.clone()), once);
}

#[test]
fn folding_without_constants_changes_nothing() {
    let insts = vec![
        assign(2, Op::IAdd { left: value(0), right: value(1) }),
        assign(3, Op::INeg(value(2))),
        Inst::Jmp(BlockCall { block: BlockID(1), args: vec![value(3)] }),
    ];
    assert_eq!(fold(insts.clone()), insts);
}

fn names(inst: &Inst) -> Vec<usize> {
    match inst {
        Inst::Assign { dest, op } => {
            let mut out = vec![dest.0];
            match op {
                Op::IAdd { left, right } | Op::ISub { left, right } | Op::IMul { left, right } => {
                    out.push(left.0);
                    out.push(right.0);
                }
                _ => {}
            }
            out
        }
        Inst::Ret(v) => vec![v.0],
        _ => vec![],
    }
}

#[test]
fn folding_names_no_new_value() {
    let input = vec![
        constant(0, 5),
        constant(1, 6),
        assign(2, Op::IMul { left: value(0), right: value(1) }),
        assign(3, Op::IAdd { left: value(2), right: value(9) }),
        Inst::Ret(value(3)),
    ];
    let before: Vec<usize> = input.iter().flat_map(|i| names(i)).collect();
    let folded = fold(input);
    for inst in &folded {
        for id in names(inst) {
            assert!(before.contains(&id));
        }
    }
    assert_eq!(
        folded,
        vec![
            constant(2, 30),
            assign(3, Op::IAdd { left: value(2), right: value(9) }),
            Inst::Ret(value(3))
        ]
    );
}

#[test]
fn integer_arithmetic_wraps() {
    let folded = fold(vec![
        constant(0, i32::MAX),
        constant(1, 1),
        assign(2, Op::IAdd { left: value(0), right: value(1) }),
        assign(3, Op::INeg(value(2))),
        assign(4, Op::IMul { left: value(0), right: value(0) }),
    ]);
    assert_eq!(folded, vec![constant(2, i32::MIN), constant(3, i32::MIN), constant(4, 1)]);
}

#[test]
fn division_by_zero_is_left_for_run_time() {
    let div = assign(2, Op::SDiv { left: value(0), right: value(1) });
    let rem = assign(3, Op::SRem { left: value(0), right: value(1) });
    let folded = fold(vec![constant(0, 7), constant(1, 0), div.clone(), rem.clone()]);
    assert_eq!(folded, vec![div, rem]);
}

#[test]
fn division_that_does_not_fit_is_left_for_run_time() {
    let div = assign(2, Op::SDiv { left: value(0), right: value(1) });
    let folded = fold(vec![constant(0, i32::MIN), constant(1, -1), div.clone()]);
    assert_eq!(folded, vec![div]);
}

#[test]
fn signed_division_truncates_toward_zero() {
    let folded = fold(vec![
        constant(0, -7),
        constant(1, 2),
        assign(2, Op::SDiv { left: value(0), right: value(1) }),
        assign(3, Op::SRem { left: value(0), right: value(1) }),
    ]);
    assert_eq!(folded, vec![constant(2, -3), constant(3, -1)]);
}

#[test]
fn unsigned_operations_fold_unsigned_constants_only() {
    let u = |id: usize| ValueID(id, Type::U8);
    let c = |id: usize, n: u8| Inst::Assign { dest: u(id), op: Op::Const(Const::U8(n)) };
    let sdiv = Inst::Assign { dest: u(4), op: Op::SDiv { left: u(0), right: u(1) } };
    let folded = fold(vec![
        c(0, 200),
        c(1, 100),
        Inst::Assign { dest: u(2), op: Op::IAdd { left: u(0), right: u(1) } },
        Inst::Assign { dest: u(3), op: Op::UDiv { left: u(0), right: u(1) } },
        sdiv.clone(),
        Inst::Assign { dest: u(5), op: Op::URem { left: u(0), right: u(1) } },
        Inst::Assign { dest: u(6), op: Op::ISub { left: u(1), right: u(0) } },
    ]);
    assert_eq!(folded, vec![c(2, 44), c(3, 2), sdiv, c(5, 0), c(6, 156)]);
}

#[test]
fn shifts_move_by_one_bit() {
    let folded = fold(vec![
        constant(0, -8),
        assign(1, Op::Lsh(value(0))),
        assign(2, Op::LRsh(value(0))),
        assign(3, Op::ARsh(value(0))),
        assign(4, Op::BNot(value(0))),
    ]);
    assert_eq!(
        folded,
        vec![constant(1, -16), constant(2, 0x7FFF_FFFC), constant(3, -4), constant(4, 7)]
    );
}

#[test]
fn bitwise_or_and_and_fold() {
    let folded = fold(vec![
        constant(0, 0b1100),
        constant(1, 0b1010),
        assign(2, Op::BOr { left: value(0), right: value(1) }),
        assign(3, Op::BAnd { left: value(0), right: value(1) }),
    ]);
    assert_eq!(folded, vec![constant(2, 0b1110), constant(3, 0b1000)]);
}

#[test]
fn float_negation_flips_the_sign_bit() {
    let f = |id: usize| ValueID(id, Type::F64);
    let folded = fold(vec![
        Inst::Assign { dest: f(0), op: Op::Const(Const::F64(1.5f64.to_bits())) },
        Inst::Assign { dest: f(1), op: Op::FNeg(f(0)) },
    ]);
    assert_eq!(
        folded,
        vec![Inst::Assign { dest: f(1), op: Op::Const(Const::F64((-1.5f64).to_bits())) }]
    );
}

#[test]
fn float_arithmetic_and_comparisons_are_not_folded() {
    let f = |id: usize| ValueID(id, Type::F64);
    let add = Inst::Assign { dest: f(2), op: Op::FAdd { left: f(0), right: f(1) } };
    let cmp = Inst::Assign {
        dest: ValueID(3, Type::Bool),
        op: Op::ICmp { predicate: CmpPred::eq(), left: value(4), right: value(4) },
    };
    let folded = fold(vec![
        Inst::Assign { dest: f(0), op: Op::Const(Const::F64(1.5f64.to_bits())) },
        Inst::Assign { dest: f(1), op: Op::Const(Const::F64(2.5f64.to_bits())) },
        constant(4, 1),
        add.clone(),
        cmp.clone(),
    ]);
    assert_eq!(folded, vec![add, cmp]);
}

fn float_value(op: FloatOp, l: Const, r: Const) -> Option<Const> {
    match (l, r) {
        (Const::F64(a), Const::F64(b)) => {
            let (a, b) = (f64::from_bits(a), f64::from_bits(b));
            let value = match op {
                FloatOp::Add => a + b,
                FloatOp::Sub => a - b,
                FloatOp::Mul => a * b,
                FloatOp::Div => a / b,
                FloatOp::Rem => a % b,
            };
            Some(Const::F64(value.to_bits()))
        }
        _ => None,
    }
}

#[test]
fn float_arithmetic_folds_to_what_the_caller_computes() {
    let f = |id: usize| ValueID(id, Type::F64);
    let c = |id: usize, v: f64| Inst::Assign { dest: f(id), op: Op::Const(Const::F64(v.to_bits())) };
    let mixed = Inst::Assign { dest: f(9), op: Op::FAdd { left: f(0), right: value(8) } };
    let mut module = module_of(vec![
        c(0, 1.5),
        c(1, 2.0),
        constant(8, 1),
        Inst::Assign { dest: f(2), op: Op::FAdd { left: f(0), right: f(1) } },
        Inst::Assign { dest: f(3), op: Op::FSub { left: f(0), right: f(1) } },
        Inst::Assign { dest: f(4), op: Op::FMul { left: f(2), right: f(1) } },
        Inst::Assign { dest: f(5), op: Op::FDiv { left: f(0), right: f(1) } },
        Inst::Assign { dest: f(6), op: Op::FRem { left: f(4), right: f(1) } },
        Inst::Assign { dest: f(7), op: Op::FNeg(f(6)) },
        mixed.clone(),
        Inst::Ret(f(7)),
    ]);
    ConstantFolder::new().run_with(&mut module, float_value);
    assert_eq!(
        module.functions[0].blocks[0].insts,
        vec![c(2, 3.5), c(3, -0.5), c(4, 7.0), c(5, 0.75), c(6, 1.0), c(7, -1.0), mixed, Inst::Ret(f(7))]
    );
}

#[test]
fn mixed_operand_types_are_not_folded() {
    let add = assign(2, Op::IAdd { left: value(0), right: value(1) });
    let folded = fold(vec![
        constant(0, 1),
        Inst::Assign { dest: value(1), op: Op::Const(Const::I64(1)) },
        add.clone(),
    ]);
    assert_eq!(folded, vec![add]);
}

#[test]
fn constants_of_one_block_are_unknown_in_the_next() {
    let add = assign(2, Op::IAdd { left: value(0), right: value(0) });
    let mut module = Module {
        name: "m".to_string(),
        functions: vec![Function {
            alias: "f".to_string(),
            blocks: vec![
                Block { id: BlockID(0), insts: vec![constant(0, 1)], params: vec![] },
                Block { id: BlockID(1), insts: vec![add.clone()], params: vec![] },
            ],
            sig: FunctionSignature::new(),
        }],
    };
    ConstantFolder::new().run(&mut module);
    assert_eq!(module.functions[0].blocks[0].insts, vec![]);
    assert_eq!(module.functions[0].blocks[1].insts, vec![add]);
}

#[test]
fn a_constant_defined_later_in_the_block_is_known() {
    let folded = fold(vec![
        assign(1, Op::IAdd { left: value(0), right: value(0) }),
        constant(0, 4),
    ]);
    assert_eq!(folded, vec![constant(1, 8)]);
}

struct Renamer;

impl OptimizationPass for Renamer {
    fn name(&self) -> String {
        "Renamer".to_string()
    }

    fn apply(&mut self, module: &mut Module) {
        module.name = "renamed".to_string();
    }
}

#[test]
fn passes_run_in_the_order_added_and_once_per_name() {
    let mut module = module_of(vec![
        constant(0, 1),
        assign(1, Op::IAdd { left: value(0), right: value(0) }),
    ]);
    {
        let mut optimizer = Optimizer::new(&mut module).with_constant_folder().with_constant_folder();
        optimizer.add_pass(Box::new(Renamer));
        optimizer.add_pass(Box::new(Renamer));
        optimizer.add_pass(Box::new(ConstantFolder::new()));
        let names: Vec<String> = optimizer.passes().iter().map(|p| p.name()).collect();
        assert_eq!(names, vec!["ConstantFolder".to_string(), "Renamer".to_string()]);
        optimizer.run();
    }
    assert_eq!(module.name, "renamed");
    assert_eq!(module.functions[0].blocks[0].insts, vec![constant(1, 2)]);
}

#[test]
fn a_pass_is_held_under_the_name_given() {
    let mut module = module_of(vec![constant(0, 1)]);
    let mut optimizer = Optimizer::new(&mut module);
    optimizer.add_named("first".to_string(), Box::new(Renamer));
    optimizer.add_named("second".to_string(), Box::new(ConstantFolder::new()));
    optimizer.add_named("first".to_string(), Box::new(ConstantFolder::new()));
    optimizer.add_pass(Box::new(Renamer)).add_pass(Box::new(Renamer));
    let names: Vec<String> = optimizer.passes().iter().map(|p| p.name()).collect();
    assert_eq!(names, vec!["first", "second", "Renamer"]);
    optimizer.run();
    assert_eq!(module.name, "renamed");
    assert_eq!(module.functions[0].blocks[0].insts, vec![]);
}

#[test]
fn signature_builders() {
    let sig = FunctionSignature::new();
    assert!(sig.params.is_empty());
    assert_eq!(sig.return_ty, Type::Void);
    let sig = sig.with_params(vec![Type::I8, Type::U16]).add_param(Type::F32).with_return_ty(Type::Bool);
    assert_eq!(sig.params, vec![Type::I8, Type::U16, Type::F32]);
    assert_eq!(sig.return_ty, Type::Bool);
}

#[test]
fn values_are_numbered_after_the_parameters() {
    let mut context = Context::new();
    let module = context.create_module("m");
    let mut builder = module.builder();
    let sig = FunctionSignature::new().with_params(vec![types::I64, types::I64]);
    let mut function = builder.create_function("f", sig);
    let mut first = function.create_block();
    let mut second = function.create_block().with_param(&mut function, types::F32);
    assert_eq!(first.id(), BlockID(0));
    assert_eq!(second.id(), BlockID(1));
    assert_eq!(second.get_param(0), ParamID(2, Type::F32));
    let a = first.ins(&mut function).u8const(7);
    let b = second.ins(&mut function).f32const(1.0f32.to_bits());
    let c = first.ins(&mut function).icmp(a, a, CmpPred::ult());
    second.ins(&mut function).ret(b);
    let d = first.ins(&mut function).lsh(a);
    assert_eq!(a, ValueID(3, Type::U8));
    assert_eq!(b, ValueID(4, Type::F32));
    assert_eq!(c, ValueID(5, Type::Bool));
    assert_eq!(d, ValueID(6, Type::U8));
    function.eat_block(first);
    function.eat_block(second);
    builder.eat_function(function.build());
    builder.build();
    assert_eq!(
        module.display(),
        "func void : @f(i64 %0, i64 %1) {\n\
         u0():\n  %3 = const u8 : 7\n  %5 = icmp ult %3 %3\n  %6 = lsh %3\n\
         u1(f32 %2):\n  %4 = const f32 : 0x3f800000\n  ret %4\n}"
    );
    assert_eq!(context.modules().len(), 1);
    assert_eq!(context.modules()[0].name, "m");
}

#[test]
fn comparison_predicates() {
    assert_eq!(CmpPred::eq(), CmpPred::Eq);
    assert_eq!(CmpPred::ne(), CmpPred::Ne);
    assert_eq!(CmpPred::sgt(), CmpPred::SGt);
    assert_eq!(CmpPred::slt(), CmpPred::SLt);
    assert_eq!(CmpPred::sge(), CmpPred::SGe);
    assert_eq!(CmpPred::sle(), CmpPred::SLe);
    assert_eq!(CmpPred::ugt(), CmpPred::UGt);
    assert_eq!(CmpPred::ult(), CmpPred::ULt);
    assert_eq!(CmpPred::uge(), CmpPred::UGe);
    assert_eq!(CmpPred::ule(), CmpPred::ULe);
    assert_eq!(CmpPred::sge().to_string(), "sge");
}

#[test]
fn instructions_as_text() {
    assert_eq!(constant(3, -12).to_string(), "%3 = const i32 : -12");
    assert_eq!(Const::I64(i64::MIN).to_string(), "i64 : -9223372036854775808");
    assert_eq!(Const::U64(u64::MAX).to_string(), "u64 : 18446744073709551615");
    assert_eq!(Const::Void.to_string(), "void : VOID");
    assert_eq!(Const::F64(1.0f64.to_bits()).to_string(), "f64 : 0x3ff0000000000000");
    assert_eq!(
        Inst::Branch {
            condition: value(1),
            true_path: BlockCall { block: BlockID(2), args: vec![value(3), value(4)] },
            false_path: BlockCall { block: BlockID(5), args: vec![] },
        }
        .to_string(),
        "br %1 u2(%3, %4) u5()"
    );
    assert_eq!(
        assign(2, Op::FCmp { predicate: CmpPred::Ne, left: value(0), right: value(1) }).to_string(),
        "%2 = fcmp ne %0 %1"
    );
    assert_eq!(ParamID(4, Type::U16).to_string(), "u16 %4");
    let v: ValueID = ParamID(4, Type::U16).into();
    assert_eq!(v, ValueID(4, Type::U16));
    let p: ParamID = v.into();
    assert_eq!(p, ParamID(4, Type::U16));
}
