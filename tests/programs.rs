use ir_interp::interp;
use ir_interp::ir::{
    BinaryOperator, Block, BlockExit, BlockId, Constant, Declaration, Dtype, FunctionDefinition,
    FunctionSignature, Instruction, JumpArg, Operand, RegisterId, TranslationUnit,
};
use ir_interp::{GlobalMap, InterpreterError, Memory, Pc, StackFrame, State, Value};

fn i32_dtype() -> Dtype {
    Dtype::Int { width: 32, is_signed: true }
}

fn cint(v: u128) -> Operand {
    Operand::Constant(Constant::Int { value: v, width: 32, is_signed: true })
}

fn ptr_dtype() -> Dtype {
    Dtype::Pointer { inner: Box::new(i32_dtype()) }
}

fn slot() -> Operand {
    reg(RegisterId::Local { aid: 0 }, ptr_dtype())
}

fn reg(rid: RegisterId, dtype: Dtype) -> Operand {
    Operand::Register { rid, dtype }
}

fn temp(bid: usize, iid: usize) -> Operand {
    reg(RegisterId::Temp { bid: BlockId(bid), iid }, i32_dtype())
}

fn arg(bid: usize, aid: usize) -> Operand {
    reg(RegisterId::Arg { bid: BlockId(bid), aid }, i32_dtype())
}

fn block(phinodes: Vec<Dtype>, instructions: Vec<Instruction>, exit: BlockExit) -> Block {
    Block { phinodes, instructions, exit }
}

fn ret(value: Operand) -> BlockExit {
    BlockExit::Return { value }
}

fn jump(bid: usize, args: Vec<Operand>) -> JumpArg {
    JumpArg { bid: BlockId(bid), args }
}

fn function(params: Vec<Dtype>, allocations: Vec<Dtype>, blocks: Vec<Block>) -> Declaration {
    Declaration::Function {
        signature: FunctionSignature { ret: i32_dtype(), params },
        definition: Some(FunctionDefinition { allocations, blocks, bid_init: BlockId(0) }),
    }
}

fn function_type(params: usize) -> Dtype {
    Dtype::Function { ret: Box::new(i32_dtype()), params: (0..params).map(|_| i32_dtype()).collect() }
}

fn global(name: &str, dtype: Dtype) -> Operand {
    Operand::Constant(Constant::GlobalVariable { name: name.to_string(), dtype })
}

fn program(decls: Vec<(&str, Declaration)>) -> TranslationUnit {
    TranslationUnit { decls: decls.into_iter().map(|(n, d)| (n.to_string(), d)).collect() }
}

fn main_only(blocks: Vec<Block>) -> TranslationUnit {
    program(vec![("main", function(vec![], vec![], blocks))])
}

fn add_function() -> Declaration {
    function(
        vec![i32_dtype(), i32_dtype()],
        vec![],
        vec![block(
            vec![i32_dtype(), i32_dtype()],
            vec![Instruction::BinOp { op: BinaryOperator::Plus, lhs: arg(0, 0), rhs: arg(0, 1), dtype: i32_dtype() }],
            ret(temp(0, 0)),
        )],
    )
}

#[test]
fn returns_constant() {
    let ir = main_only(vec![block(vec![], vec![], ret(cint(42)))]);
    assert_eq!(interp(&ir, vec![]), Ok(Value::Int { value: 42, width: 32, is_signed: true }));
}

#[test]
fn local_store_then_load() {
    let ir = program(vec![(
        "main",
        function(
            vec![],
            vec![i32_dtype()],
            vec![block(
                vec![],
                vec![
                    Instruction::Store { ptr: slot(), value: cint(7) },
                    Instruction::Load { ptr: slot() },
                ],
                ret(temp(0, 1)),
            )],
        ),
    )]);
    assert_eq!(interp(&ir, vec![]), Ok(Value::Int { value: 7, width: 32, is_signed: true }));
}

#[test]
fn call_returns_sum() {
    let ir = program(vec![
        ("add", add_function()),
        (
            "main",
            function(
                vec![],
                vec![],
                vec![block(
                    vec![],
                    vec![Instruction::Call {
                        callee: global("add", function_type(2)),
                        args: vec![cint(3), cint(4)],
                        return_type: i32_dtype(),
                    }],
                    ret(temp(0, 0)),
                )],
            ),
        ),
    ]);
    assert_eq!(interp(&ir, vec![]), Ok(Value::Int { value: 7, width: 32, is_signed: true }));
}

#[test]
fn call_keeps_caller_registers() {
    let ir = program(vec![
        (
            "main",
            function(
                vec![],
                vec![],
                vec![block(
                    vec![],
                    vec![
                        Instruction::BinOp { op: BinaryOperator::Plus, lhs: cint(1), rhs: cint(2), dtype: i32_dtype() },
                        Instruction::Call {
                            callee: global("add", function_type(2)),
                            args: vec![cint(10), cint(20)],
                            return_type: i32_dtype(),
                        },
                        Instruction::BinOp { op: BinaryOperator::Plus, lhs: temp(0, 0), rhs: temp(0, 1), dtype: i32_dtype() },
                    ],
                    ret(temp(0, 2)),
                )],
            ),
        ),
        ("add", add_function()),
    ]);
    assert_eq!(interp(&ir, vec![]), Ok(Value::Int { value: 33, width: 32, is_signed: true }));
}

fn switch_on(v: u128) -> TranslationUnit {
    main_only(vec![
        block(
            vec![],
            vec![],
            BlockExit::Switch {
                value: cint(v),
                default: jump(3, vec![]),
                cases: vec![
                    (Constant::Int { value: 1, width: 32, is_signed: true }, jump(1, vec![])),
                    (Constant::Int { value: 2, width: 32, is_signed: true }, jump(2, vec![])),
                ],
            },
        ),
        block(vec![], vec![], ret(cint(10))),
        block(vec![], vec![], ret(cint(20))),
        block(vec![], vec![], ret(cint(30))),
    ])
}

#[test]
fn switch_takes_matching_case() {
    assert_eq!(interp(&switch_on(2), vec![]), Ok(Value::Int { value: 20, width: 32, is_signed: true }));
    assert_eq!(interp(&switch_on(1), vec![]), Ok(Value::Int { value: 10, width: 32, is_signed: true }));
}

#[test]
fn switch_falls_back_to_default() {
    assert_eq!(interp(&switch_on(5), vec![]), Ok(Value::Int { value: 30, width: 32, is_signed: true }));
}

#[test]
fn unreachable_fails() {
    let ir = main_only(vec![block(vec![], vec![], BlockExit::Unreachable)]);
    assert_eq!(interp(&ir, vec![]), Err(InterpreterError::Unreachable));
}

#[test]
fn call_without_body_fails() {
    let ir = program(vec![
        (
            "ext",
            Declaration::Function {
                signature: FunctionSignature { ret: i32_dtype(), params: vec![] },
                definition: None,
            },
        ),
        (
            "main",
            function(
                vec![],
                vec![],
                vec![block(
                    vec![],
                    vec![Instruction::Call { callee: global("ext", function_type(0)), args: vec![], return_type: i32_dtype() }],
                    ret(temp(0, 0)),
                )],
            ),
        ),
    ]);
    assert_eq!(
        interp(&ir, vec![]),
        Err(InterpreterError::NoFunctionDefinition { func_name: "ext".to_string() })
    );
}

#[test]
fn missing_main_fails() {
    let ir = program(vec![("add", add_function())]);
    assert_eq!(interp(&ir, vec![]), Err(InterpreterError::NoMainFunction));
    let ir = program(vec![("main", Declaration::Variable { dtype: i32_dtype(), initializer: None })]);
    assert_eq!(interp(&ir, vec![]), Err(InterpreterError::NoMainFunction));
}

#[test]
fn main_without_body_fails() {
    let ir = program(vec![(
        "main",
        Declaration::Function { signature: FunctionSignature { ret: i32_dtype(), params: vec![] }, definition: None },
    )]);
    assert_eq!(
        interp(&ir, vec![]),
        Err(InterpreterError::NoFunctionDefinition { func_name: "main".to_string() })
    );
}

#[test]
fn jump_binds_arguments_in_order() {
    let ir = main_only(vec![
        block(vec![], vec![], BlockExit::Jump { arg: jump(1, vec![cint(5), cint(6)]) }),
        block(
            vec![i32_dtype(), i32_dtype()],
            vec![Instruction::BinOp { op: BinaryOperator::Minus, lhs: arg(1, 0), rhs: arg(1, 1), dtype: i32_dtype() }],
            ret(temp(1, 0)),
        ),
    ]);
    assert_eq!(interp(&ir, vec![]), Ok(Value::Int { value: 0xFFFF_FFFF, width: 32, is_signed: true }));
}

#[test]
fn conditional_jump_follows_condition() {
    let cond = |c: u128| {
        main_only(vec![
            block(
                vec![],
                vec![Instruction::BinOp { op: BinaryOperator::Less, lhs: cint(c), rhs: cint(3), dtype: i32_dtype() }],
                BlockExit::ConditionalJump {
                    condition: reg(RegisterId::Temp { bid: BlockId(0), iid: 0 }, Dtype::Int { width: 1, is_signed: true }),
                    arg_then: jump(1, vec![]),
                    arg_else: jump(2, vec![]),
                },
            ),
            block(vec![], vec![], ret(cint(100))),
            block(vec![], vec![], ret(cint(200))),
        ])
    };
    assert_eq!(interp(&cond(1), vec![]), Ok(Value::Int { value: 100, width: 32, is_signed: true }));
    assert_eq!(interp(&cond(4), vec![]), Ok(Value::Int { value: 200, width: 32, is_signed: true }));
}

#[test]
fn main_receives_arguments() {
    let ir = program(vec![("main", function(vec![i32_dtype()], vec![], vec![block(vec![i32_dtype()], vec![], ret(arg(0, 0)))]))]);
    let v = Value::Int { value: 11, width: 32, is_signed: true };
    assert_eq!(interp(&ir, vec![v]), Ok(v));
}

#[test]
fn global_variable_is_initialized() {
    let ir = program(vec![
        (
            "main",
            function(
                vec![],
                vec![],
                vec![block(vec![], vec![Instruction::Load { ptr: global("g", i32_dtype()) }], ret(temp(0, 0)))],
            ),
        ),
        ("g", Declaration::Variable { dtype: i32_dtype(), initializer: Some(Constant::Int { value: 9, width: 32, is_signed: true }) }),
    ]);
    assert_eq!(interp(&ir, vec![]), Ok(Value::Int { value: 9, width: 32, is_signed: true }));
}

fn null_pointer_program(instruction: Instruction) -> TranslationUnit {
    program(vec![(
        "main",
        function(vec![ptr_dtype()], vec![], vec![block(vec![ptr_dtype()], vec![instruction], ret(cint(0)))]),
    )])
}

fn null_arg() -> Operand {
    reg(RegisterId::Arg { bid: BlockId(0), aid: 0 }, ptr_dtype())
}

fn is_misc<T>(r: &Result<T, InterpreterError>) -> bool {
    matches!(r, Err(InterpreterError::Misc { .. }))
}

#[test]
fn load_through_null_pointer_fails() {
    let ir = null_pointer_program(Instruction::Load { ptr: null_arg() });
    let r = interp(&ir, vec![Value::Pointer { bid: None, offset: 0 }]);
    assert!(is_misc(&r));
    if let Err(InterpreterError::Misc { pc, .. }) = r {
        assert_eq!(pc, Pc { bid: BlockId(0), iid: 0 });
    }
}

#[test]
fn store_through_null_pointer_fails() {
    let ir = null_pointer_program(Instruction::Store { ptr: null_arg(), value: cint(1) });
    assert!(is_misc(&interp(&ir, vec![Value::Pointer { bid: None, offset: 0 }])));
}

#[test]
fn call_through_null_pointer_fails() {
    let ir = null_pointer_program(Instruction::Call { callee: null_arg(), args: vec![], return_type: i32_dtype() });
    assert!(is_misc(&interp(&ir, vec![Value::Pointer { bid: None, offset: 0 }])));
}

#[test]
fn load_through_integer_fails() {
    let ir = main_only(vec![block(vec![], vec![Instruction::Load { ptr: cint(3) }], ret(cint(0)))]);
    assert!(is_misc(&interp(&ir, vec![])));
}

#[test]
fn unsupported_operator_fails() {
    let ir = main_only(vec![block(
        vec![],
        vec![Instruction::BinOp { op: BinaryOperator::Divide, lhs: cint(6), rhs: cint(3), dtype: i32_dtype() }],
        ret(temp(0, 0)),
    )]);
    assert!(is_misc(&interp(&ir, vec![])));
}

#[test]
fn unwritten_register_is_reported() {
    let ir = main_only(vec![block(vec![], vec![], ret(temp(0, 5)))]);
    assert!(matches!(interp(&ir, vec![]), Err(InterpreterError::InvariantViolation { .. })));
}

#[test]
fn duplicate_name_is_reported() {
    let ir = program(vec![
        ("main", function(vec![], vec![], vec![block(vec![], vec![], ret(cint(1)))])),
        ("main", function(vec![], vec![], vec![block(vec![], vec![], ret(cint(2)))])),
    ]);
    assert!(matches!(interp(&ir, vec![]), Err(InterpreterError::InvariantViolation { .. })));
}

#[test]
fn mismatched_operands_are_reported() {
    let ir = main_only(vec![block(
        vec![],
        vec![Instruction::BinOp {
            op: BinaryOperator::Plus,
            lhs: cint(1),
            rhs: Operand::Constant(Constant::Int { value: 1, width: 8, is_signed: true }),
            dtype: i32_dtype(),
        }],
        ret(temp(0, 0)),
    )]);
    assert!(matches!(interp(&ir, vec![]), Err(InterpreterError::InvariantViolation { .. })));
}

#[test]
fn stepping_through_a_call() {
    let ir = program(vec![
        ("add", add_function()),
        (
            "main",
            function(
                vec![],
                vec![],
                vec![block(
                    vec![],
                    vec![Instruction::Call {
                        callee: global("add", function_type(2)),
                        args: vec![cint(3), cint(4)],
                        return_type: i32_dtype(),
                    }],
                    ret(temp(0, 0)),
                )],
            ),
        ),
    ]);
    let mut state = State::new(&ir, vec![]).unwrap();
    assert_eq!(state.stack_frame.pc, Pc { bid: BlockId(0), iid: 0 });
    assert_eq!(state.step(), Ok(None));
    assert_eq!(state.stack.len(), 1);
    assert_eq!(state.stack_frame.func_name, "add".to_string());
    assert_eq!(state.stack_frame.pc, Pc { bid: BlockId(0), iid: 0 });
    assert_eq!(state.step(), Ok(None));
    assert_eq!(state.stack_frame.pc, Pc { bid: BlockId(0), iid: 1 });
    assert_eq!(state.step(), Ok(None));
    assert_eq!(state.stack.len(), 0);
    assert_eq!(state.stack_frame.func_name, "main".to_string());
    assert_eq!(state.stack_frame.pc, Pc { bid: BlockId(0), iid: 1 });
    assert_eq!(
        state.stack_frame.registers.read(&RegisterId::Temp { bid: BlockId(0), iid: 0 }),
        Some(Value::Int { value: 7, width: 32, is_signed: true })
    );
    assert_eq!(state.step(), Ok(Some(Value::Int { value: 7, width: 32, is_signed: true })));
}

#[test]
fn globals_follow_existing_blocks() {
    let ir = program(vec![
        ("main", function(vec![], vec![], vec![block(vec![], vec![], ret(cint(0)))])),
        ("g", Declaration::Variable { dtype: i32_dtype(), initializer: Some(Constant::Int { value: 5, width: 32, is_signed: true }) }),
    ]);
    let mut memory = Memory::new();
    memory.allocate(&i32_dtype());
    memory.allocate(&i32_dtype());
    let mut state = State {
        global_map: GlobalMap::new(),
        stack_frame: StackFrame::new(BlockId(0), "main".to_string(), 0),
        stack: vec![],
        memory,
        ir: &ir,
    };
    assert_eq!(state.alloc_global_variables(), Ok(()));
    assert_eq!(state.global_map.get_bid(&"main".to_string()), Some(2));
    assert_eq!(state.global_map.get_bid(&"g".to_string()), Some(3));
    assert_eq!(state.memory.len(), 4);
    assert_eq!(state.memory.block_len(2), 0);
    assert_eq!(state.memory.load(3, 0), Value::Int { value: 5, width: 32, is_signed: true });
}
