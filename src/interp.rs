use vstd::prelude::*;
use crate::calculator::{
    binary_result, binary_well_typed, calculate_binary_operator_expression,
    calculate_typecast, calculate_unary_operator_expression, typecast_result, unary_result,
    unary_well_typed,
};
use crate::global_map::GlobalMap;
use crate::ir::{
    BlockExit, BlockId, Constant, Instruction, UnaryOperator, Declaration, FunctionDefinition, FunctionSignature, JumpArg, Operand, RegisterId,
    TranslationUnit, Dtype, compatible, operand_dtype,
};
use crate::memory::Memory;
use crate::registers::RegisterMap;
use crate::value::Value;

verus! {

/// Why an interpretation failed.
#[derive(Debug, PartialEq)]
pub enum InterpreterError {
    /// An `Unreachable` block exit was reached.
    Unreachable,
    /// The program has no function named `main`.
    NoMainFunction,
    /// A function was entered that is declared without a body.
    NoFunctionDefinition { func_name: String },
    /// An operator or cast that is not supported, or a memory access through a
    /// value that is not a pointer to storage.
    Misc { func_name: String, pc: Pc, msg: String },
    /// The program breaks a rule that well-formed input keeps: a register read
    /// before it is written, a block or slot that does not exist, operands or
    /// block arguments of the wrong type, a name declared twice.
    InvariantViolation { func_name: String, pc: Pc, msg: String },
}

/// A program counter: a block, and the index of an instruction in it.
#[derive(Debug, PartialEq, Eq, Structural, Clone, Copy)]
pub struct Pc {
    pub bid: BlockId,
    pub iid: usize,
}

impl Pc {
    pub open spec fn new_spec(bid: BlockId) -> Pc {
        Pc { bid, iid: 0 }
    }

    pub fn new(bid: BlockId) -> (r: Pc)
        ensures
            r == Pc::new_spec(bid),
    {
        Pc { bid, iid: 0 }
    }

    pub fn increment(&mut self)
        requires
            old(self).iid < usize::MAX,
        ensures
            *final(self) == (Pc { bid: old(self).bid, iid: (old(self).iid + 1) as usize }),
    {
        self.iid = self.iid + 1;
    }
}

/// The definition of the function declared at index `f`, if it has one.
pub open spec fn function_def(ir: TranslationUnit, f: int) -> Option<FunctionDefinition> {
    if 0 <= f < ir.decls@.len() {
        match ir.decls@[f].1 {
            Declaration::Function { definition, .. } => definition,
            _ => None,
        }
    } else {
        None
    }
}

/// The value of a constant; a global's name stands for a pointer to its block.
pub open spec fn constant_value(c: Constant, bids: Map<Seq<char>, usize>) -> Option<Value> {
    match c {
        Constant::Unit => Some(Value::Unit),
        Constant::Int { value, width, is_signed } => Some(Value::Int { value, width, is_signed }),
        Constant::Float { value, width } => Some(Value::Float { value, width }),
        Constant::GlobalVariable { name, .. } => if bids.contains_key(name@) {
            Some(Value::Pointer { bid: Some(bids[name@]), offset: 0 })
        } else {
            None
        },
    }
}

/// The value of an operand in a frame with the given registers.
pub open spec fn operand_value(
    o: Operand,
    regs: Map<RegisterId, Value>,
    bids: Map<Seq<char>, usize>,
) -> Option<Value> {
    match o {
        Operand::Constant(c) => constant_value(c, bids),
        Operand::Register { rid, .. } => if regs.contains_key(rid) {
            Some(regs[rid])
        } else {
            None
        },
    }
}

/// A jump can be taken: its target exists, it passes one well-typed value for
/// each of the target's arguments, and each of those values can be read.
pub open spec fn jump_valid(
    def: FunctionDefinition,
    arg: JumpArg,
    regs: Map<RegisterId, Value>,
    bids: Map<Seq<char>, usize>,
) -> bool {
    &&& arg.bid.0 < def.blocks@.len()
    &&& arg.args@.len() == def.blocks@[arg.bid.0 as int].phinodes@.len()
    &&& forall|i: int|
        0 <= i < arg.args@.len() ==> compatible(
            operand_dtype(#[trigger] arg.args@[i]),
            def.blocks@[arg.bid.0 as int].phinodes@[i],
        )
    &&& forall|i: int|
        0 <= i < arg.args@.len() ==> (#[trigger] operand_value(arg.args@[i], regs, bids)) is Some
}

/// The registers after a jump: the target block's arguments are bound, by
/// position, to the values of the jump's operands, read before the jump.
pub open spec fn jump_registers(
    arg: JumpArg,
    regs: Map<RegisterId, Value>,
    bids: Map<Seq<char>, usize>,
) -> Map<RegisterId, Value> {
    Map::new(
        |k: RegisterId|
            regs.contains_key(k) || match k {
                RegisterId::Arg { bid, aid } => bid == arg.bid && aid < arg.args@.len(),
                _ => false,
            },
        |k: RegisterId|
            match k {
                RegisterId::Arg { bid, aid } => if bid == arg.bid && aid < arg.args@.len() {
                    operand_value(arg.args@[aid as int], regs, bids).unwrap()
                } else {
                    regs[k]
                },
                _ => regs[k],
            },
    )
}

/// The registers after binding `args`, by position, to the arguments of block `bid`.
pub open spec fn arg_registers(regs: Map<RegisterId, Value>, bid: BlockId, args: Seq<Value>) -> Map<
    RegisterId,
    Value,
> {
    Map::new(
        |k: RegisterId|
            regs.contains_key(k) || match k {
                RegisterId::Arg { bid: b, aid } => b == bid && aid < args.len(),
                _ => false,
            },
        |k: RegisterId|
            match k {
                RegisterId::Arg { bid: b, aid } => if b == bid && aid < args.len() {
                    args[aid as int]
                } else {
                    regs[k]
                },
                _ => regs[k],
            },
    )
}

/// The registers after binding, for each of `n` local allocations, a pointer to
/// the block allocated for it; those blocks are numbered from `base` on.
pub open spec fn local_registers(regs: Map<RegisterId, Value>, base: int, n: int) -> Map<
    RegisterId,
    Value,
> {
    Map::new(
        |k: RegisterId|
            regs.contains_key(k) || match k {
                RegisterId::Local { aid } => aid < n,
                _ => false,
            },
        |k: RegisterId|
            match k {
                RegisterId::Local { aid } => if aid < n {
                    Value::Pointer { bid: Some((base + aid) as usize), offset: 0 }
                } else {
                    regs[k]
                },
                _ => regs[k],
            },
    )
}

/// Where a switch on `v` goes: the target of the first case whose constant
/// equals `v`, or the default.
pub open spec fn switch_target(
    v: Value,
    cases: Seq<(Constant, JumpArg)>,
    default: JumpArg,
    bids: Map<Seq<char>, usize>,
) -> JumpArg
    decreases cases.len(),
{
    if cases.len() == 0 {
        default
    } else if constant_value(cases[0].0, bids) == Some(v) {
        cases[0].1
    } else {
        switch_target(v, cases.drop_first(), default, bids)
    }
}

/// Every case constant up to the first one equal to `v` can be evaluated.
pub open spec fn switch_ready(v: Value, cases: Seq<(Constant, JumpArg)>, bids: Map<Seq<char>, usize>) -> bool
    decreases cases.len(),
{
    if cases.len() == 0 {
        true
    } else {
        match constant_value(cases[0].0, bids) {
            None => false,
            Some(c) => c == v || switch_ready(v, cases.drop_first(), bids),
        }
    }
}

/// `after` is `before` once a jump by `arg` was taken: the target's arguments
/// are bound and the target's first instruction is next.
pub open spec fn jumped(before: State, after: State, arg: JumpArg) -> bool {
    &&& jump_valid(before.def(), arg, before.regs(), before.bids())
    &&& after.stack_frame.pc == Pc::new_spec(arg.bid)
    &&& after.regs() == jump_registers(arg, before.regs(), before.bids())
}

/// The operands of an operator or a cast can all be read.
pub open spec fn operands_ready(
    instruction: Instruction,
    regs: Map<RegisterId, Value>,
    bids: Map<Seq<char>, usize>,
) -> bool {
    match instruction {
        Instruction::BinOp { lhs, rhs, .. } => {
            &&& operand_value(lhs, regs, bids) matches Some(l)
            &&& operand_value(rhs, regs, bids) matches Some(r)
            &&& binary_well_typed(l, r)
        },
        Instruction::UnaryOp { op, operand, .. } => operand_value(operand, regs, bids) matches Some(
            v,
        ) && unary_well_typed(op, v),
        Instruction::TypeCast { value, .. } => operand_value(value, regs, bids) is Some,
        _ => false,
    }
}

/// What an operator or a cast yields on the values of its operands.
pub open spec fn pure_result(
    instruction: Instruction,
    regs: Map<RegisterId, Value>,
    bids: Map<Seq<char>, usize>,
) -> Option<Value> {
    match instruction {
        Instruction::BinOp { op, lhs, rhs, .. } => match (
            operand_value(lhs, regs, bids),
            operand_value(rhs, regs, bids),
        ) {
            (Some(l), Some(r)) => if binary_well_typed(l, r) {
                binary_result(op, l, r)
            } else {
                None
            },
            _ => None,
        },
        Instruction::UnaryOp { op, operand, .. } => match operand_value(operand, regs, bids) {
            Some(v) => if unary_well_typed(op, v) {
                unary_result(op, v)
            } else {
                None
            },
            None => None,
        },
        Instruction::TypeCast { value, target_dtype } => match operand_value(value, regs, bids) {
            Some(v) => typecast_result(v, target_dtype),
            None => None,
        },
        _ => None,
    }
}

/// `after` is `before` once an instruction yielded `result`: it is written to the
/// temp register of the instruction's position, which moves on by one.
pub open spec fn advanced(before: State, after: State, result: Value) -> bool {
    let pc = before.stack_frame.pc;
    &&& pc.iid < usize::MAX
    &&& after.stack_frame.pc == (Pc { bid: pc.bid, iid: (pc.iid + 1) as usize })
    &&& after.regs() == before.regs().insert(RegisterId::Temp { bid: pc.bid, iid: pc.iid }, result)
    &&& after.stack_frame.func == before.stack_frame.func
    &&& after.stack_frame.func_name == before.stack_frame.func_name
    &&& after.stack == before.stack
}

/// `after` is `before` once a call was entered: the caller's frame, unchanged,
/// is suspended on top of the stack, and the callee's frame starts at its entry
/// block.
pub open spec fn called(before: State, after: State, callee: Operand, args: Seq<Operand>) -> bool {
    &&& callee_target(before, callee) matches Some(name)
    &&& first_decl(*before.ir, name) matches Some(
        Declaration::Function { definition: Some(def), .. },
    )
    &&& after.stack@ == before.stack@.push(before.stack_frame)
    &&& after.stack_frame.func_name@ == name
    &&& after.def() == def
    &&& after.stack_frame.pc == Pc::new_spec(def.bid_init)
    &&& after.memory@ == before.memory@ + Seq::new(
        def.allocations@.len(),
        |j: int| crate::memory::fresh_block(def.allocations@[j]),
    )
    &&& after.regs() == local_registers(
        arg_registers(
            Map::empty(),
            def.bid_init,
            arg_values(args, before.regs(), before.bids()),
        ),
        before.memory@.len() as int,
        def.allocations@.len() as int,
    )
}

/// The values of `args`, where each can be read.
pub open spec fn arg_values(
    args: Seq<Operand>,
    regs: Map<RegisterId, Value>,
    bids: Map<Seq<char>, usize>,
) -> Seq<Value> {
    Seq::new(args.len(), |i: int| operand_value(args[i], regs, bids).unwrap())
}

/// The name of the global that a callee operand points to.
pub open spec fn callee_target(s: State, callee: Operand) -> Option<Seq<char>> {
    match operand_value(callee, s.regs(), s.bids()) {
        Some(Value::Pointer { bid: Some(b), .. }) => if s.global_map.vars().contains_key(b) {
            Some(s.global_map.vars()[b])
        } else {
            None
        },
        _ => None,
    }
}

/// A call can be made: its callee is a defined function, the arguments fit its
/// parameters, and there is room for its local blocks.
pub open spec fn call_ready(s: State, callee: Operand, args: Seq<Operand>) -> bool {
    &&& callee_target(s, callee) matches Some(name)
    &&& first_decl(*s.ir, name) matches Some(
        Declaration::Function { signature, definition: Some(def) },
    )
    &&& args_valid(signature.params@, args, s.regs(), s.bids())
    &&& s.memory@.len() + def.allocations@.len() < usize::MAX
}

/// The index of the first declaration named `name`.
pub fn find_decl(ir: &TranslationUnit, name: &String) -> (r: Option<usize>)
    ensures
        match r {
            Some(i) => i < ir.decls@.len() && ir.decls@[i as int].0@ == name@ && first_decl(*ir, name@)
                == Some(ir.decls@[i as int].1),
            None => first_decl(*ir, name@) is None,
        },
{
    let mut i: usize = 0;
    while i < ir.decls.len()
        invariant
            i <= ir.decls@.len(),
            forall|j: int| 0 <= j < i ==> (#[trigger] ir.decls@[j]).0@ != name@,
        decreases ir.decls@.len() - i,
    {
        if ir.decls[i].0 == *name {
            proof {
                let k = choose|k: int|
                    0 <= k < ir.decls@.len() && (#[trigger] ir.decls@[k]).0@ == name@ && forall|j: int|
                        0 <= j < k ==> (#[trigger] ir.decls@[j]).0@ != name@;
                assert(ir.decls@[i as int].0@ == name@);
                assert(k == i);
            }
            return Some(i);
        }
        i = i + 1;
    }
    None
}

pub open spec fn main_name() -> Seq<char> {
    seq!['m', 'a', 'i', 'n']
}

/// The first declaration named `name`.
pub open spec fn first_decl(ir: TranslationUnit, name: Seq<char>) -> Option<Declaration> {
    if exists|i: int| 0 <= i < ir.decls@.len() && (#[trigger] ir.decls@[i]).0@ == name {
        let i = choose|i: int|
            0 <= i < ir.decls@.len() && (#[trigger] ir.decls@[i]).0@ == name && forall|j: int|
                0 <= j < i ==> (#[trigger] ir.decls@[j]).0@ != name;
        Some(ir.decls@[i].1)
    } else {
        None
    }
}

/// The first declaration named `main`.
pub open spec fn main_decl(ir: TranslationUnit) -> Option<Declaration> {
    first_decl(ir, main_name())
}

/// The value that the block exit at the program counter returns, where the
/// running block is done and ends in a `Return` whose operand can be read.
pub open spec fn finishing(s: State) -> Option<Value> {
    let pc = s.stack_frame.pc;
    if pc.bid.0 < s.def().blocks@.len() && pc.iid >= s.def().blocks@[pc.bid.0 as int].instructions@.len() {
        match s.def().blocks@[pc.bid.0 as int].exit {
            BlockExit::Return { value } => operand_value(value, s.regs(), s.bids()),
            _ => None,
        }
    } else {
        None
    }
}

/// The block that a declaration is given when it is allocated.
pub open spec fn alloc_block(d: Declaration) -> Seq<Value> {
    match d {
        Declaration::Variable { dtype, .. } => crate::memory::fresh_block(dtype),
        Declaration::Function { .. } => Seq::empty(),
    }
}

/// A declaration's block once its initializer, if any, is stored.
pub open spec fn init_block(d: Declaration, bids: Map<Seq<char>, usize>) -> Seq<Value> {
    match d {
        Declaration::Variable { initializer: Some(c), .. } => seq![constant_value(c, bids).unwrap()],
        _ => alloc_block(d),
    }
}

/// A constant names, if it names a global, a declared one.
pub open spec fn initializer_declared(ir: TranslationUnit, c: Constant) -> bool {
    match c {
        Constant::GlobalVariable { name, .. } => exists|j: int|
            0 <= j < ir.decls@.len() && (#[trigger] ir.decls@[j]).0@ == name@,
        _ => true,
    }
}

/// The declarations can be allocated: each name is declared once, no variable
/// has a function type, and every initializer names only declared globals.
pub open spec fn globals_ok(ir: TranslationUnit) -> bool {
    &&& ir.decls@.len() < usize::MAX
    &&& forall|i: int, j: int|
        0 <= i < ir.decls@.len() && 0 <= j < ir.decls@.len() && i != j ==> (#[trigger] ir.decls@[i]).0@
            != (#[trigger] ir.decls@[j]).0@
    &&& forall|j: int|
        0 <= j < ir.decls@.len() ==> match (#[trigger] ir.decls@[j]).1 {
            Declaration::Variable { dtype, initializer } => !(dtype is Function) && match initializer {
                Some(c) => initializer_declared(ir, c),
                None => true,
            },
            _ => true,
        }
}

/// Every declaration has the block numbered by `base` plus its position, under its name,
/// holding its initial contents; no other name is registered.
pub open spec fn globals_allocated(s: State, base: int) -> bool {
    let decls = s.ir.decls@;
    &&& s.memory@.len() >= base + decls.len()
    &&& forall|j: int|
        0 <= j < decls.len() ==> s.bids().contains_key((#[trigger] decls[j]).0@) && s.bids()[decls[j].0@]
            == base + j
    &&& forall|m: Seq<char>|
        #[trigger] s.bids().contains_key(m) ==> exists|j: int| 0 <= j < decls.len() && (#[trigger] decls[j]).0@ == m
    &&& forall|j: int| 0 <= j < decls.len() ==> s.memory@[base + j] == init_block(decls[j].1, s.bids())
}

/// `main` is defined and the declarations can be allocated, with room for
/// `main`'s local blocks.
pub open spec fn new_ok(ir: TranslationUnit) -> bool {
    &&& main_decl(ir) matches Some(Declaration::Function { definition: Some(def), .. })
    &&& globals_ok(ir)
    &&& ir.decls@.len() + def.allocations@.len() < usize::MAX
}

/// `s` starts a run of `main` on `args`: every declaration has its block, the
/// blocks of `main`'s locals follow, `args` are bound to the entry block's
/// arguments, and the entry block's first instruction is next.
pub open spec fn initial(s: State, ir: TranslationUnit, args: Seq<Value>) -> bool {
    let n = ir.decls@.len();
    &&& *s.ir == ir
    &&& s.wf()
    &&& globals_allocated(s, 0)
    &&& s.stack@.len() == 0
    &&& s.stack_frame.func_name@ == main_name()
    &&& main_decl(ir) == Some(ir.decls@[s.stack_frame.func as int].1)
    &&& s.stack_frame.pc == Pc::new_spec(s.def().bid_init)
    &&& s.memory@.len() == n + s.def().allocations@.len()
    &&& forall|j: int|
        0 <= j < s.def().allocations@.len() ==> s.memory@[n + j] == crate::memory::fresh_block(
            #[trigger] s.def().allocations@[j],
        )
    &&& s.regs() == local_registers(
        arg_registers(Map::empty(), s.def().bid_init, args),
        n as int,
        s.def().allocations@.len() as int,
    )
}

/// The instruction at the program counter, where there is one.
pub open spec fn current_instruction(s: State) -> Option<Instruction> {
    let pc = s.stack_frame.pc;
    if pc.bid.0 < s.def().blocks@.len() && pc.iid < s.def().blocks@[pc.bid.0 as int].instructions@.len() {
        Some(s.def().blocks@[pc.bid.0 as int].instructions@[pc.iid as int])
    } else {
        None
    }
}

/// The exit of the running block, where its instructions are done.
pub open spec fn current_exit(s: State) -> Option<BlockExit> {
    let pc = s.stack_frame.pc;
    if pc.bid.0 < s.def().blocks@.len() && pc.iid >= s.def().blocks@[pc.bid.0 as int].instructions@.len() {
        Some(s.def().blocks@[pc.bid.0 as int].exit)
    } else {
        None
    }
}

/// The running block is done and ends in `Unreachable`.
pub open spec fn at_unreachable(s: State) -> bool {
    let pc = s.stack_frame.pc;
    &&& pc.bid.0 < s.def().blocks@.len()
    &&& pc.iid >= s.def().blocks@[pc.bid.0 as int].instructions@.len()
    &&& s.def().blocks@[pc.bid.0 as int].exit is Unreachable
}

pub open spec fn unit_of(r: Result<Option<Value>, InterpreterError>) -> Result<(), InterpreterError> {
    match r {
        Ok(_) => Ok(()),
        Err(e) => Err(e),
    }
}

/// What a run from `s` yields at once, without a step that changes the state:
/// the value of a final return, or the failure of an `Unreachable`.
pub open spec fn halts_now(s: State) -> Option<Result<Value, InterpreterError>> {
    if s.stack@.len() == 0 && finishing(s) is Some {
        Some(Ok(finishing(s).unwrap()))
    } else if at_unreachable(s) {
        Some(Err(InterpreterError::Unreachable))
    } else {
        None
    }
}

/// The name of the function of the outermost frame, the one that started the run.
pub open spec fn outermost_name(s: State) -> Seq<char> {
    if s.stack@.len() == 0 {
        s.stack_frame.func_name@
    } else {
        s.stack@[0].func_name@
    }
}

/// The outermost function of `s` returns `v`.
pub open spec fn finished(s: State, v: Value) -> bool {
    s.stack@.len() == 0 && finishing(s) == Some(v)
}

/// `after` is `before` once its running function returned `v` to its caller:
/// the caller's frame runs again, with `v` in the temp register of the call and
/// its program counter just past the call.
pub open spec fn returned(before: State, after: State, v: Value) -> bool {
    let caller = before.stack@.last();
    &&& after.stack@ == before.stack@.drop_last()
    &&& caller.pc.iid < usize::MAX
    &&& after.stack_frame.pc == (Pc { bid: caller.pc.bid, iid: (caller.pc.iid + 1) as usize })
    &&& after.regs() == caller.registers@.insert(
        RegisterId::Temp { bid: caller.pc.bid, iid: caller.pc.iid },
        v,
    )
    &&& after.stack_frame.func == caller.func
    &&& after.stack_frame.func_name == caller.func_name
    &&& after.memory == before.memory
    &&& after.global_map == before.global_map
}

/// `e` is a `Misc` error that names the running function and its program counter.
pub open spec fn located_misc(s: State, e: InterpreterError) -> bool {
    e matches InterpreterError::Misc { func_name, pc, .. } && func_name == s.stack_frame.func_name
        && pc == s.stack_frame.pc
}

/// A call can pass `args` to parameters of dtypes `params`: one well-typed,
/// readable operand for each parameter.
pub open spec fn args_valid(
    params: Seq<Dtype>,
    args: Seq<Operand>,
    regs: Map<RegisterId, Value>,
    bids: Map<Seq<char>, usize>,
) -> bool {
    &&& args.len() == params.len()
    &&& forall|i: int| 0 <= i < args.len() ==> compatible(operand_dtype(#[trigger] args[i]), params[i])
    &&& forall|i: int| 0 <= i < args.len() ==> (#[trigger] operand_value(args[i], regs, bids)) is Some
}

/// What leaving the running block by `block_exit` from `before` must have done,
/// given its outcome `r`.
pub open spec fn exit_post(
    before: State,
    after: State,
    block_exit: BlockExit,
    r: Result<Option<Value>, InterpreterError>,
) -> bool {
    &&& after.ir == before.ir
    &&& after.global_map == before.global_map
    &&& after.memory == before.memory
    &&& after.stack == before.stack
    &&& after.stack_frame.func == before.stack_frame.func
    &&& after.stack_frame.func_name == before.stack_frame.func_name
    &&& r is Err ==> after.stack_frame == before.stack_frame
    &&& r matches Ok(Some(_)) ==> block_exit is Return
    &&& match block_exit {
        BlockExit::Unreachable => r == Err::<Option<Value>, InterpreterError>(
            InterpreterError::Unreachable,
        ),
        BlockExit::Return { value } => after.stack_frame == before.stack_frame
            && match operand_value(value, before.regs(), before.bids()) {
            Some(v) => r == Ok::<Option<Value>, InterpreterError>(Some(v)),
            None => r is Err,
        },
        BlockExit::Jump { arg } => (r is Ok <==> jump_valid(
            before.def(),
            arg,
            before.regs(),
            before.bids(),
        )) && (r is Ok ==> jumped(before, after, arg)),
        BlockExit::ConditionalJump { condition, arg_then, arg_else } => (operand_value(
            condition,
            before.regs(),
            before.bids(),
        ) matches Some(Value::Int { value: c, width: 1, .. }) ==> (jump_valid(
            before.def(),
            if c == 1 {
                arg_then
            } else {
                arg_else
            },
            before.regs(),
            before.bids(),
        ) ==> r is Ok)) && (r is Ok ==> {
            &&& operand_value(condition, before.regs(), before.bids()) matches Some(
                Value::Int { value: c, width: 1, .. },
            )
            &&& jumped(
                before,
                after,
                if c == 1 {
                    arg_then
                } else {
                    arg_else
                },
            )
        }),
        BlockExit::Switch { value, default, cases } => (operand_value(
            value,
            before.regs(),
            before.bids(),
        ) matches Some(v) ==> (switch_ready(v, cases@, before.bids()) && jump_valid(
            before.def(),
            switch_target(v, cases@, default, before.bids()),
            before.regs(),
            before.bids(),
        ) ==> r is Ok)) && (r is Ok ==> {
            &&& operand_value(value, before.regs(), before.bids()) matches Some(v)
            &&& jumped(
                before,
                after,
                switch_target(v, cases@, default, before.bids()),
            )
        }),
    }
}

/// What running `instruction` from `before` must have done, given its outcome `r`.
pub open spec fn instruction_post(
    before: State,
    after: State,
    instruction: Instruction,
    r: Result<(), InterpreterError>,
) -> bool {
    match instruction {
        Instruction::Call { callee, args, .. } => {
            &&& r is Ok ==> called(before, after, callee, args@)
            &&& r is Err ==> after == before
            &&& call_ready(before, callee, args@) ==> r is Ok
            &&& (operand_value(callee, before.regs(), before.bids()) matches Some(p)
                && !(p matches Value::Pointer { bid: Some(_), .. })) ==> r is Err
                && located_misc(before, r->Err_0)
            &&& callee_target(before, callee) matches Some(name) ==> (first_decl(*before.ir, name)
                matches Some(Declaration::Function { definition: None, .. }) ==> r is Err
                && (r->Err_0 matches InterpreterError::NoFunctionDefinition { func_name }
                && func_name@ == name))
        },
        Instruction::Store { ptr, value } => {
            &&& r is Err ==> after == before
            &&& after.stack == before.stack
            &&& r is Ok ==> {
                &&& operand_value(ptr, before.regs(), before.bids()) matches Some(
                    Value::Pointer { bid: Some(b), offset: o },
                )
                &&& operand_value(value, before.regs(), before.bids()) matches Some(v)
                &&& before.memory.in_bounds(b, o)
                &&& after.memory@ == before.memory@.update(
                    b as int,
                    before.memory@[b as int].update(o as int, v),
                )
                &&& advanced(before, after, Value::Unit)
            }
            &&& (operand_value(ptr, before.regs(), before.bids()) matches Some(
                Value::Pointer { bid: Some(b), offset: o },
            ) && operand_value(value, before.regs(), before.bids()) is Some
                && before.memory.in_bounds(b, o) && before.stack_frame.pc.iid
                < usize::MAX) ==> r is Ok
            &&& (operand_value(ptr, before.regs(), before.bids()) matches Some(p)
                && operand_value(value, before.regs(), before.bids()) is Some
                && !(p matches Value::Pointer { bid: Some(_), .. })) ==> r is Err
                && located_misc(before, r->Err_0)
        },
        Instruction::Load { ptr } => {
            &&& r is Err ==> after == before
            &&& after.stack == before.stack
            &&& after.memory == before.memory
            &&& r is Ok ==> {
                &&& operand_value(ptr, before.regs(), before.bids()) matches Some(
                    Value::Pointer { bid: Some(b), offset: o },
                )
                &&& before.memory.in_bounds(b, o)
                &&& advanced(before, after, before.memory@[b as int][o as int])
            }
            &&& (operand_value(ptr, before.regs(), before.bids()) matches Some(
                Value::Pointer { bid: Some(b), offset: o },
            ) && before.memory.in_bounds(b, o) && before.stack_frame.pc.iid
                < usize::MAX) ==> r is Ok
            &&& (operand_value(ptr, before.regs(), before.bids()) matches Some(p)
                && !(p matches Value::Pointer { bid: Some(_), .. })) ==> r is Err
                && located_misc(before, r->Err_0)
        },
        _ => {
            &&& r is Err ==> after == before
            &&& after.stack == before.stack
            &&& after.memory == before.memory
            &&& r is Ok ==> (pure_result(instruction, before.regs(), before.bids()) matches Some(v)
                && advanced(before, after, v))
            &&& (operands_ready(instruction, before.regs(), before.bids())
                && pure_result(instruction, before.regs(), before.bids()) is None) ==> r is Err
                && located_misc(before, r->Err_0)
            &&& (operands_ready(instruction, before.regs(), before.bids())
                && pure_result(instruction, before.regs(), before.bids()) is Some
                && before.stack_frame.pc.iid < usize::MAX) ==> r is Ok
        },
    }
}

/// What one step from `before` must have done, given its outcome `r`.
pub open spec fn step_post(before: State, after: State, r: Result<Option<Value>, InterpreterError>) -> bool {
    &&& after.ir == before.ir
    &&& after.global_map == before.global_map
    &&& current_exit(before) matches Some(e) ==> (e is Return && finishing(before) is None ==> r is Err
        && after == before)
    &&& r is Ok ==> outermost_name(after) == outermost_name(before)
    &&& r matches Ok(Some(v)) ==> finished(before, v) && after == before
    &&& finishing(before) matches Some(v) ==> (before.stack@.len() == 0 ==> r
        == Ok::<Option<Value>, InterpreterError>(Some(v)))
    &&& finishing(before) matches Some(v) ==> (before.stack@.len() > 0
        && before.stack@.last().pc.iid < usize::MAX ==> r == Ok::<
        Option<Value>,
        InterpreterError,
    >(None) && returned(before, after, v))
    &&& current_instruction(before) matches Some(i) ==> instruction_post(
        before,
        after,
        i,
        unit_of(r),
    ) && (r is Ok ==> r == Ok::<Option<Value>, InterpreterError>(None))
    &&& at_unreachable(before) ==> r == Err::<Option<Value>, InterpreterError>(
        InterpreterError::Unreachable,
    ) && after == before
    &&& current_exit(before) matches Some(e) ==> (!(e is Return) ==> exit_post(
        before,
        after,
        e,
        r,
    ))
    &&& current_instruction(before) is None && current_exit(before) is None ==> r is Err
        && after == before
}

/// `end` and `r` are what a run from `start` came to: a sequence of steps that
/// each went on, then a step that handed back a value or failed, or the step
/// budget ran out.
pub open spec fn runs(start: State, end: State, r: Result<Value, InterpreterError>) -> bool {
    exists|t: Seq<State>|
        {
            &&& t.len() >= 1
            &&& t[0] == start
            &&& forall|i: int|
                0 <= i < t.len() - 1 ==> #[trigger] step_post(
                    t[i],
                    t[i + 1],
                    Ok::<Option<Value>, InterpreterError>(None),
                )
            &&& match r {
                Ok(v) => end == t.last() && step_post(
                    t.last(),
                    end,
                    Ok::<Option<Value>, InterpreterError>(Some(v)),
                ),
                Err(e) => step_post(t.last(), end, Err::<Option<Value>, InterpreterError>(e))
                    || (t.len() > u64::MAX && end == t.last()),
            }
        }
}

/// One activation of a function.
pub struct StackFrame {
    pub pc: Pc,
    pub registers: RegisterMap,
    pub func_name: String,
    /// The index of the function's declaration in the translation unit.
    pub func: usize,
}

impl StackFrame {
    pub open spec fn wf(&self, ir: TranslationUnit) -> bool {
        &&& self.registers.wf()
        &&& function_def(ir, self.func as int) is Some
    }

    pub fn new(bid: BlockId, func_name: String, func: usize) -> (r: StackFrame)
        ensures
            r.pc == Pc::new_spec(bid),
            r.registers.wf(),
            r.registers@ == Map::<RegisterId, Value>::empty(),
            r.func_name == func_name,
            r.func == func,
    {
        StackFrame { pc: Pc::new(bid), registers: RegisterMap::new(), func_name, func }
    }
}

/// The whole state of an interpretation.
pub struct State<'i> {
    pub global_map: GlobalMap,
    pub stack_frame: StackFrame,
    pub stack: Vec<StackFrame>,
    pub memory: Memory,
    pub ir: &'i TranslationUnit,
}

impl<'i> State<'i> {
    pub open spec fn wf(&self) -> bool {
        &&& self.global_map.wf()
        &&& self.stack_frame.wf(*self.ir)
        &&& forall|i: int| 0 <= i < self.stack@.len() ==> (#[trigger] self.stack@[i]).wf(*self.ir)
    }

    /// The definition of the running function.
    pub open spec fn def(&self) -> FunctionDefinition {
        function_def(*self.ir, self.stack_frame.func as int).unwrap()
    }

    pub open spec fn regs(&self) -> Map<RegisterId, Value> {
        self.stack_frame.registers@
    }

    pub open spec fn bids(&self) -> Map<Seq<char>, usize> {
        self.global_map.bids()
    }

    fn error(&self, msg: &str) -> (r: InterpreterError)
        ensures
            r matches InterpreterError::InvariantViolation { func_name, pc, .. } && func_name
                == self.stack_frame.func_name && pc == self.stack_frame.pc,
    {
        InterpreterError::InvariantViolation {
            func_name: self.stack_frame.func_name.clone(),
            pc: self.stack_frame.pc,
            msg: msg.to_owned(),
        }
    }

    fn misc(&self, msg: &str) -> (r: InterpreterError)
        ensures
            located_misc(*self, r),
    {
        InterpreterError::Misc {
            func_name: self.stack_frame.func_name.clone(),
            pc: self.stack_frame.pc,
            msg: msg.to_owned(),
        }
    }

    fn current_def(&self) -> (r: &'i FunctionDefinition)
        requires
            self.wf(),
        ensures
            *r == self.def(),
    {
        let ir: &'i TranslationUnit = self.ir;
        match &ir.decls[self.stack_frame.func].1 {
            Declaration::Function { definition: Some(def), .. } => def,
            _ => vstd::pervasive::unreached(),
        }
    }

    /// The value of a constant; fails where a global's name is unknown.
    pub fn interp_constant(&self, c: &Constant) -> (r: Result<Value, InterpreterError>)
        requires
            self.global_map.wf(),
        ensures
            match r {
                Ok(v) => constant_value(*c, self.bids()) == Some(v),
                Err(e) => constant_value(*c, self.bids()) is None && e is InvariantViolation,
            },
    {
        match c {
            Constant::Unit => Ok(Value::unit()),
            Constant::Int { value, width, is_signed } => Ok(Value::integer(*value, *width, *is_signed)),
            Constant::Float { value, width } => Ok(Value::float(*value, *width)),
            Constant::GlobalVariable { name, .. } => match self.global_map.get_bid(name) {
                Some(bid) => Ok(Value::pointer(Some(bid), 0)),
                None => Err(self.error("unknown global variable")),
            },
        }
    }

    /// The value of an operand in the running frame; fails where a register is
    /// read before it is written or a global's name is unknown.
    pub fn interp_operand(&self, o: &Operand) -> (r: Result<Value, InterpreterError>)
        requires
            self.wf(),
        ensures
            match r {
                Ok(v) => operand_value(*o, self.regs(), self.bids()) == Some(v),
                Err(e) => operand_value(*o, self.regs(), self.bids()) is None
                    && e is InvariantViolation,
            },
    {
        match o {
            Operand::Constant(c) => self.interp_constant(c),
            Operand::Register { rid, .. } => match self.stack_frame.registers.read(rid) {
                Some(v) => Ok(v),
                None => Err(self.error("register read before it is written")),
            },
        }
    }

    /// The memory location a pointer value names. Fails with `Misc` on a value
    /// that is not a pointer and on a pointer with no block.
    pub fn interp_ptr(&self, pointer: Value) -> (r: Result<(usize, usize), InterpreterError>)
        ensures
            match r {
                Ok((bid, offset)) => pointer == (Value::Pointer { bid: Some(bid), offset }),
                Err(e) => located_misc(*self, e) && !(pointer matches Value::Pointer { bid: Some(_), .. }),
            },
    {
        match pointer.get_pointer() {
            None => Err(self.misc("Accessing memory with non-pointer")),
            Some((None, _)) => Err(self.misc("Accessing memory with constant pointer")),
            Some((Some(bid), offset)) => Ok((bid, offset)),
        }
    }

    /// Jumps to `arg.bid`: binds the target's arguments to the values of the
    /// jump's operands and starts at the target's first instruction.
    pub fn interp_jump(&mut self, arg: &JumpArg) -> (r: Result<Option<Value>, InterpreterError>)
        requires
            old(self).wf(),
        ensures
            final(self).wf(),
            final(self).ir == old(self).ir,
            final(self).global_map == old(self).global_map,
            final(self).memory == old(self).memory,
            final(self).stack == old(self).stack,
            final(self).stack_frame.func == old(self).stack_frame.func,
            final(self).stack_frame.func_name == old(self).stack_frame.func_name,
            r is Ok <==> jump_valid(old(self).def(), *arg, old(self).regs(), old(self).bids()),
            r is Ok ==> r == Ok::<Option<Value>, InterpreterError>(None)
                && final(self).stack_frame.pc == Pc::new_spec(arg.bid)
                && final(self).regs() == jump_registers(*arg, old(self).regs(), old(self).bids()),
            r is Err ==> r->Err_0 is InvariantViolation && final(self).stack_frame == old(self).stack_frame,
    {
        let def = self.current_def();
        if arg.bid.0 >= def.blocks.len() {
            return Err(self.error("jump to a block that does not exist"));
        }
        let block = &def.blocks[arg.bid.0];
        if arg.args.len() != block.phinodes.len() {
            return Err(self.error("jump passes the wrong number of arguments"));
        }
        let mut i: usize = 0;
        while i < arg.args.len()
            invariant
                self.wf(),
                *def == self.def(),
                *block == def.blocks@[arg.bid.0 as int],
                arg.bid.0 < def.blocks@.len(),
                arg.args@.len() == block.phinodes@.len(),
                i <= arg.args@.len(),
                forall|j: int| 0 <= j < i ==> compatible(
                    operand_dtype(#[trigger] arg.args@[j]),
                    block.phinodes@[j],
                ),
            decreases arg.args@.len() - i,
        {
            if !arg.args[i].is_compatible_with(&block.phinodes[i]) {
                return Err(self.error("jump argument of the wrong type"));
            }
            i = i + 1;
        }
        let mut values: Vec<Value> = Vec::new();
        let mut i: usize = 0;
        while i < arg.args.len()
            invariant
                self.wf(),
                i <= arg.args@.len(),
                values@.len() == i,
                forall|j: int| 0 <= j < i ==> operand_value(#[trigger] arg.args@[j], self.regs(), self.bids())
                    == Some(values@[j]),
            decreases arg.args@.len() - i,
        {
            let v = self.interp_operand(&arg.args[i])?;
            values.push(v);
            i = i + 1;
        }
        self.write_args(arg.bid, values);
        self.stack_frame.pc = Pc::new(arg.bid);
        proof {
            assert(self.regs() =~= jump_registers(*arg, old(self).regs(), old(self).bids()));
        }
        Ok(None)
    }

    /// Binds `args`, by position, to the arguments of block `bid_init`.
    pub fn write_args(&mut self, bid_init: BlockId, args: Vec<Value>)
        requires
            old(self).wf(),
        ensures
            final(self).wf(),
            final(self).ir == old(self).ir,
            final(self).global_map == old(self).global_map,
            final(self).memory == old(self).memory,
            final(self).stack == old(self).stack,
            final(self).stack_frame.func == old(self).stack_frame.func,
            final(self).stack_frame.func_name == old(self).stack_frame.func_name,
            final(self).stack_frame.pc == old(self).stack_frame.pc,
            final(self).regs() == arg_registers(old(self).regs(), bid_init, args@),
    {
        let mut i: usize = 0;
        while i < args.len()
            invariant
                self.wf(),
                self.ir == old(self).ir,
                self.global_map == old(self).global_map,
                self.memory == old(self).memory,
                self.stack == old(self).stack,
                self.stack_frame.func == old(self).stack_frame.func,
                self.stack_frame.func_name == old(self).stack_frame.func_name,
                self.stack_frame.pc == old(self).stack_frame.pc,
                i <= args@.len(),
                self.regs() == arg_registers(old(self).regs(), bid_init, args@.subrange(0, i as int)),
            decreases args@.len() - i,
        {
            self.stack_frame.registers.write(RegisterId::arg(bid_init, i), args[i]);
            i = i + 1;
            proof {
                assert(self.regs() =~= arg_registers(
                    old(self).regs(),
                    bid_init,
                    args@.subrange(0, i as int),
                ));
            }
        }
        assert(args@.subrange(0, i as int) =~= args@);
    }

    /// Allocates a block for each local allocation of the running function and
    /// binds a pointer to it to the allocation's local register.
    pub fn alloc_local_variables(&mut self) -> (r: Result<(), InterpreterError>)
        requires
            old(self).wf(),
        ensures
            final(self).wf(),
            final(self).ir == old(self).ir,
            final(self).global_map == old(self).global_map,
            final(self).stack == old(self).stack,
            final(self).stack_frame.func == old(self).stack_frame.func,
            final(self).stack_frame.func_name == old(self).stack_frame.func_name,
            final(self).stack_frame.pc == old(self).stack_frame.pc,
            r is Ok ==> {
                let allocs = old(self).def().allocations@;
                let base = old(self).memory@.len();
                &&& final(self).memory@ == old(self).memory@ + Seq::new(
                    allocs.len(),
                    |j: int| crate::memory::fresh_block(allocs[j]),
                )
                &&& final(self).regs() == local_registers(old(self).regs(), base as int, allocs.len() as int)
            },
            r is Err ==> r->Err_0 is InvariantViolation,
            old(self).memory@.len() + old(self).def().allocations@.len() < usize::MAX ==> r is Ok,
    {
        let def = self.current_def();
        let ghost base = self.memory@.len();
        let ghost allocs = def.allocations@;
        let mut j: usize = 0;
        while j < def.allocations.len()
            invariant
                self.wf(),
                *def == old(self).def(),
                allocs == def.allocations@,
                base == old(self).memory@.len(),
                self.memory@.len() == base + j,
                self.ir == old(self).ir,
                self.global_map == old(self).global_map,
                self.stack == old(self).stack,
                self.stack_frame.func == old(self).stack_frame.func,
                self.stack_frame.func_name == old(self).stack_frame.func_name,
                self.stack_frame.pc == old(self).stack_frame.pc,
                j <= allocs.len(),
                self.memory@ == old(self).memory@ + Seq::new(
                    j as nat,
                    |k: int| crate::memory::fresh_block(allocs[k]),
                ),
                self.regs() == local_registers(old(self).regs(), base as int, j as int),
            decreases allocs.len() - j,
        {
            if self.memory.len() == usize::MAX {
                return Err(self.error("memory is exhausted"));
            }
            let bid = self.memory.allocate(&def.allocations[j]);
            self.stack_frame.registers.write(RegisterId::local(j), Value::pointer(Some(bid), 0));
            j = j + 1;
            proof {
                assert(self.memory@ =~= old(self).memory@ + Seq::new(
                    j as nat,
                    |k: int| crate::memory::fresh_block(allocs[k]),
                ));
                assert(self.regs() =~= local_registers(old(self).regs(), base as int, j as int));
            }
        }
        Ok(())
    }

    /// The values of a call's arguments, checked against the callee's parameters.
    pub fn interp_args(&self, signature: &FunctionSignature, args: &Vec<Operand>) -> (r: Result<
        Vec<Value>,
        InterpreterError,
    >)
        requires
            self.wf(),
        ensures
            match r {
                Ok(vs) => vs@.len() == args@.len() && args@.len() == signature.params@.len()
                    && forall|i: int|
                    0 <= i < args@.len() ==> operand_value(#[trigger] args@[i], self.regs(), self.bids())
                        == Some(vs@[i]),
                Err(e) => e is InvariantViolation,
            },
            r is Ok <==> args_valid(signature.params@, args@, self.regs(), self.bids()),
    {
        if args.len() != signature.params.len() {
            return Err(self.error("call passes the wrong number of arguments"));
        }
        let mut i: usize = 0;
        while i < args.len()
            invariant
                i <= args@.len(),
                args@.len() == signature.params@.len(),
                forall|j: int|
                    0 <= j < i ==> compatible(operand_dtype(#[trigger] args@[j]), signature.params@[j]),
            decreases args@.len() - i,
        {
            if !args[i].is_compatible_with(&signature.params[i]) {
                return Err(self.error("call argument of the wrong type"));
            }
            i = i + 1;
        }
        let mut values: Vec<Value> = Vec::new();
        let mut i: usize = 0;
        while i < args.len()
            invariant
                self.wf(),
                i <= args@.len(),
                args@.len() == signature.params@.len(),
                values@.len() == i,
                forall|j: int|
                    0 <= j < i ==> operand_value(#[trigger] args@[j], self.regs(), self.bids())
                        == Some(values@[j]),
            decreases args@.len() - i,
        {
            let v = self.interp_operand(&args[i])?;
            values.push(v);
            i = i + 1;
        }
        Ok(values)
    }

    /// Leaves the current block by its exit. A return hands back the returned
    /// value; a jump of any kind hands back `None`.
    pub fn interp_block_exit(&mut self, block_exit: &BlockExit) -> (r: Result<
        Option<Value>,
        InterpreterError,
    >)
        requires
            old(self).wf(),
        ensures
            final(self).wf(),
            exit_post(*old(self), *final(self), *block_exit, r),
    {
        match block_exit {
            BlockExit::Jump { arg } => self.interp_jump(arg),
            BlockExit::ConditionalJump { condition, arg_then, arg_else } => {
                let value = self.interp_operand(condition)?;
                match value.get_int() {
                    Some((c, 1, _)) => self.interp_jump(
                        if c == 1 {
                            arg_then
                        } else {
                            arg_else
                        },
                    ),
                    _ => Err(self.error("condition is not a 1-bit integer")),
                }
            },
            BlockExit::Switch { value, default, cases } => {
                let v = self.interp_operand(value)?;
                let mut i: usize = 0;
                assert(cases@.subrange(0, cases@.len() as int) =~= cases@);
                while i < cases.len()
                    invariant
                        self.wf(),
                        *self == *old(self),
                        *block_exit == (BlockExit::Switch { value: *value, default: *default, cases: *cases }),
                        operand_value(*value, self.regs(), self.bids()) == Some(v),
                        switch_ready(v, cases@, self.bids()) ==> switch_ready(
                            v,
                            cases@.subrange(i as int, cases@.len() as int),
                            self.bids(),
                        ),
                        i <= cases@.len(),
                        switch_target(v, cases@, *default, self.bids()) == switch_target(
                            v,
                            cases@.subrange(i as int, cases@.len() as int),
                            *default,
                            self.bids(),
                        ),
                    decreases cases@.len() - i,
                {
                    let c = self.interp_constant(&cases[i].0)?;
                    proof {
                        let rest = cases@.subrange(i as int, cases@.len() as int);
                        assert(rest[0] == cases@[i as int]);
                        assert(rest.drop_first() =~= cases@.subrange(i + 1, cases@.len() as int));
                    }
                    if c == v {
                        proof {
                            let rest = cases@.subrange(i as int, cases@.len() as int);
                            assert(constant_value(rest[0].0, self.bids()) == Some(v));
                            assert(switch_target(v, rest, *default, self.bids()) == rest[0].1);
                        }
                        return self.interp_jump(&cases[i].1);
                    }
                    i = i + 1;
                }
                self.interp_jump(default)
            },
            BlockExit::Return { value } => Ok(Some(self.interp_operand(value)?)),
            BlockExit::Unreachable => Err(InterpreterError::Unreachable),
        }
    }

    /// Runs one instruction. Each but a call writes its result to the temp
    /// register of the current position and moves to the next instruction. A
    /// call suspends the running frame, with its position unchanged, and enters
    /// the callee's entry block.
    pub fn interp_instruction(&mut self, instruction: &Instruction) -> (r: Result<(), InterpreterError>)
        requires
            old(self).wf(),
        ensures
            final(self).wf(),
            final(self).ir == old(self).ir,
            final(self).global_map == old(self).global_map,
            instruction_post(*old(self), *final(self), *instruction, r),
    {
        let result = match instruction {
            Instruction::BinOp { op, lhs, rhs, .. } => {
                let lhs = self.interp_operand(lhs)?;
                let rhs = self.interp_operand(rhs)?;
                match (lhs, rhs) {
                    (Value::Int { width: wl, is_signed: sl, .. }, Value::Int { width: wr, is_signed: sr, .. }) => {
                        if wl != wr || sl != sr {
                            return Err(self.error("operands of different integer types"));
                        }
                    },
                    _ => {},
                }
                match calculate_binary_operator_expression(op, lhs, rhs) {
                    Ok(v) => v,
                    Err(()) => return Err(self.misc("calculate_binary_operator_expression")),
                }
            },
            Instruction::UnaryOp { op, operand, .. } => {
                let operand = self.interp_operand(operand)?;
                match (op, operand) {
                    (UnaryOperator::Minus, Value::Int { is_signed: false, .. }) => {
                        return Err(self.error("arithmetic negation of an unsigned integer"));
                    },
                    (UnaryOperator::Negate, Value::Int { width, .. }) => {
                        if width != 1 {
                            return Err(self.error("logical negation of a non-boolean integer"));
                        }
                    },
                    _ => {},
                }
                match calculate_unary_operator_expression(op, operand) {
                    Ok(v) => v,
                    Err(()) => return Err(self.misc("calculate_unary_operator_expression")),
                }
            },
            Instruction::TypeCast { value, target_dtype } => {
                let value = self.interp_operand(value)?;
                match calculate_typecast(value, target_dtype) {
                    Ok(v) => v,
                    Err(()) => return Err(self.misc("calculate_typecast")),
                }
            },
            Instruction::Store { ptr, value } => {
                let ptr = self.interp_operand(ptr)?;
                let value = self.interp_operand(value)?;
                let (bid, offset) = self.interp_ptr(ptr)?;
                if bid >= self.memory.len() || offset >= self.memory.block_len(bid) {
                    return Err(self.error("store out of bounds"));
                }
                if self.stack_frame.pc.iid == usize::MAX {
                    return Err(self.error("instruction index overflows"));
                }
                self.memory.store(bid, offset, value);
                Value::Unit
            },
            Instruction::Load { ptr } => {
                let ptr = self.interp_operand(ptr)?;
                let (bid, offset) = self.interp_ptr(ptr)?;
                if bid >= self.memory.len() || offset >= self.memory.block_len(bid) {
                    return Err(self.error("load out of bounds"));
                }
                self.memory.load(bid, offset)
            },
            Instruction::Call { callee, args, .. } => {
                return self.interp_call(callee, args);
            },
        };
        if self.stack_frame.pc.iid == usize::MAX {
            return Err(self.error("instruction index overflows"));
        }
        let register = RegisterId::temp(self.stack_frame.pc.bid, self.stack_frame.pc.iid);
        self.stack_frame.registers.write(register, result);
        self.stack_frame.pc.increment();
        Ok(())
    }

    /// Calls the function that `callee` points to with the values of `args`.
    #[verifier::rlimit(60)]
    fn interp_call(&mut self, callee: &Operand, args: &Vec<Operand>) -> (r: Result<(), InterpreterError>)
        requires
            old(self).wf(),
        ensures
            final(self).wf(),
            final(self).ir == old(self).ir,
            final(self).global_map == old(self).global_map,
            r is Ok ==> called(*old(self), *final(self), *callee, args@),
            r is Err ==> *final(self) == *old(self),
            call_ready(*old(self), *callee, args@) ==> r is Ok,
            (operand_value(*callee, old(self).regs(), old(self).bids()) matches Some(p)
                && !(p matches Value::Pointer { bid: Some(_), .. })) ==> r is Err && located_misc(*old(self), r->Err_0),
            callee_target(*old(self), *callee) matches Some(name) ==> (first_decl(*old(self).ir, name)
                matches Some(Declaration::Function { definition: None, .. }) ==> r is Err
                && (r->Err_0 matches InterpreterError::NoFunctionDefinition { func_name }
                && func_name@ == name)),
    {
        let ptr = self.interp_operand(callee)?;
        let (bid, _) = self.interp_ptr(ptr)?;
        let callee_name = match self.global_map.get_var(bid) {
            Some(name) => name,
            None => return Err(self.misc("call through a pointer to no function")),
        };
        assert(callee_target(*self, *callee) == Some(callee_name@));
        let ir: &'i TranslationUnit = self.ir;
        let f = match find_decl(ir, &callee_name) {
            Some(f) => f,
            None => return Err(self.error("called function is not declared")),
        };
        let (signature, definition) = match &ir.decls[f].1 {
            Declaration::Function { signature, definition } => (signature, definition),
            _ => return Err(self.misc("call of a variable that is not a function")),
        };
        let def = match definition {
            Some(def) => def,
            None => return Err(InterpreterError::NoFunctionDefinition { func_name: callee_name }),
        };
        let values = self.interp_args(signature, args)?;
        if self.memory.len() >= usize::MAX - def.allocations.len() {
            return Err(self.error("memory is exhausted"));
        }
        proof {
            assert(values@ =~= arg_values(args@, old(self).regs(), old(self).bids()));
        }
        let mut frame = StackFrame::new(def.bid_init, callee_name, f);
        std::mem::swap(&mut self.stack_frame, &mut frame);
        self.stack.push(frame);
        self.write_args(def.bid_init, values);
        self.alloc_local_variables()
    }

    /// Allocates a block for each declaration and registers its name; then
    /// stores the initializer of each initialized variable into its block.
    pub fn alloc_global_variables(&mut self) -> (r: Result<(), InterpreterError>)
        requires
            old(self).wf(),
            old(self).global_map.bids().is_empty(),
            old(self).global_map.vars().is_empty(),
        ensures
            final(self).wf(),
            final(self).ir == old(self).ir,
            final(self).stack == old(self).stack,
            final(self).stack_frame == old(self).stack_frame,
            r is Ok ==> globals_allocated(*final(self), old(self).memory@.len() as int)
                && final(self).memory@.len() == old(self).memory@.len() + old(self).ir.decls@.len()
                && final(self).memory@.subrange(0, old(self).memory@.len() as int) == old(self).memory@,
            r is Err ==> r->Err_0 is InvariantViolation,
            globals_ok(*old(self).ir) && old(self).memory@.len() + old(self).ir.decls@.len()
                < usize::MAX ==> r is Ok,
    {
        let ir: &'i TranslationUnit = self.ir;
        let n = ir.decls.len();
        let base = self.memory.len();
        let mut i: usize = 0;
        while i < n
            invariant
                self.wf(),
                self.ir == ir,
                ir == old(self).ir,
                n == ir.decls@.len(),
                self.stack == old(self).stack,
                self.stack_frame == old(self).stack_frame,
                i <= n,
                base == old(self).memory@.len(),
                self.memory@ == old(self).memory@ + Seq::new(i as nat, |j: int| alloc_block(ir.decls@[j].1)),
                forall|b: usize| #[trigger] self.global_map.vars().contains_key(b) ==> base <= b < base + i,
                forall|j: int|
                    0 <= j < i ==> self.bids().contains_key((#[trigger] ir.decls@[j]).0@)
                        && self.bids()[ir.decls@[j].0@] == base + j,
                forall|m: Seq<char>|
                    #[trigger] self.bids().contains_key(m) ==> exists|j: int|
                        0 <= j < i && (#[trigger] ir.decls@[j]).0@ == m,
            decreases n - i,
        {
            let ghost before = self.bids();
            assert(forall|m: Seq<char>|
                #[trigger] before.contains_key(m) ==> exists|j: int|
                    0 <= j < i && (#[trigger] ir.decls@[j]).0@ == m);
            let name = &ir.decls[i].0;
            if self.global_map.get_bid(name).is_some() {
                proof {
                    assert(name@ == ir.decls@[i as int].0@);
                    assert(self.bids().contains_key(name@));
                    let j = choose|j: int| 0 <= j < i && (#[trigger] ir.decls@[j]).0@ == name@;
                    assert(ir.decls@[j].0@ == ir.decls@[i as int].0@);
                }
                return Err(self.error("name declared twice"));
            }
            if self.memory.len() == usize::MAX {
                return Err(self.error("memory is exhausted"));
            }
            assert(self.memory@.len() == base + i);
            let bid = match &ir.decls[i].1 {
                Declaration::Variable { dtype, .. } => {
                    if dtype.is_function() {
                        return Err(self.error("variable of a function type"));
                    }
                    self.memory.allocate(dtype)
                },
                Declaration::Function { .. } => self.memory.allocate_function(),
            };
            assert(self.bids() == before);
            let _ = self.global_map.insert(name.clone(), bid);
            i = i + 1;
            proof {
                assert(self.memory@ =~= old(self).memory@ + Seq::new(i as nat, |j: int| alloc_block(ir.decls@[j].1)));
                assert forall|m: Seq<char>| #[trigger] self.bids().contains_key(m) implies exists|j: int|
                    0 <= j < i && (#[trigger] ir.decls@[j]).0@ == m by {
                    if m == ir.decls@[i - 1].0@ {
                        assert(ir.decls@[i - 1].0@ == m);
                    } else {
                        assert(before.contains_key(m));
                        let j = choose|j: int| 0 <= j < i - 1 && (#[trigger] ir.decls@[j]).0@ == m;
                        assert(ir.decls@[j].0@ == m);
                    }
                }
            }
        }
        let mut i: usize = 0;
        while i < n
            invariant
                self.wf(),
                self.ir == ir,
                ir == old(self).ir,
                n == ir.decls@.len(),
                self.stack == old(self).stack,
                self.stack_frame == old(self).stack_frame,
                i <= n,
                base == old(self).memory@.len(),
                self.memory@.len() == base + n,
                self.memory@.subrange(0, base as int) == old(self).memory@,
                forall|j: int|
                    0 <= j < n ==> self.bids().contains_key((#[trigger] ir.decls@[j]).0@)
                        && self.bids()[ir.decls@[j].0@] == base + j,
                forall|m: Seq<char>|
                    #[trigger] self.bids().contains_key(m) ==> exists|j: int|
                        0 <= j < n && (#[trigger] ir.decls@[j]).0@ == m,
                forall|j: int| 0 <= j < i ==> self.memory@[base + j] == init_block(ir.decls@[j].1, self.bids()),
                forall|j: int| i <= j < n ==> self.memory@[base + j] == alloc_block(ir.decls@[j].1),
            decreases n - i,
        {
            match &ir.decls[i].1 {
                Declaration::Variable { initializer: Some(c), dtype } => {
                    proof {
                        if globals_ok(*ir) {
                            assert(initializer_declared(*ir, *c));
                            if c is GlobalVariable {
                                let j = choose|j: int|
                                    0 <= j < n && (#[trigger] ir.decls@[j]).0@ == c->name@;
                                assert(self.bids().contains_key(ir.decls@[j].0@));
                            }
                        }
                    }
                    let value = self.interp_constant(c)?;
                    if dtype.is_function() {
                        return Err(self.error("variable of a function type"));
                    }
                    self.memory.store(base + i, 0, value);
                },
                _ => {},
            }
            proof {
                assert(self.memory@[base + i] =~= init_block(ir.decls@[i as int].1, self.bids()));
                assert(self.memory@.subrange(0, base as int) =~= old(self).memory@);
            }
            i = i + 1;
        }
        Ok(())
    }

    /// Runs one step: the instruction at the program counter, or, past the last
    /// instruction, the block's exit. A return to a caller restores the caller's
    /// frame, writes the returned value to the temp register of the call and
    /// moves past the call; a return from the outermost frame hands the value back.
    pub fn step(&mut self) -> (r: Result<Option<Value>, InterpreterError>)
        requires
            old(self).wf(),
        ensures
            final(self).wf(),
            step_post(*old(self), *final(self), r),
    {
        let def = self.current_def();
        let bid = self.stack_frame.pc.bid.0;
        if bid >= def.blocks.len() {
            return Err(self.error("block does not exist"));
        }
        let block = &def.blocks[bid];
        if self.stack_frame.pc.iid < block.instructions.len() {
            self.interp_instruction(&block.instructions[self.stack_frame.pc.iid])?;
            return Ok(None);
        }
        let return_value = match self.interp_block_exit(&block.exit)? {
            Some(v) => v,
            None => return Ok(None),
        };
        let depth = self.stack.len();
        if depth == 0 {
            return Ok(Some(return_value));
        }
        if self.stack[depth - 1].pc.iid == usize::MAX {
            return Err(self.error("instruction index overflows"));
        }
        match self.stack.pop() {
            Some(prev) => {
                self.stack_frame = prev;
            },
            None => {},
        }
        let register = RegisterId::temp(self.stack_frame.pc.bid, self.stack_frame.pc.iid);
        self.stack_frame.registers.write(register, return_value);
        self.stack_frame.pc.increment();
        Ok(None)
    }

    /// Steps until the outermost function returns, and hands back its value.
    /// Gives up with `Misc` after `u64::MAX` steps.
    pub fn run(&mut self) -> (r: Result<Value, InterpreterError>)
        requires
            old(self).wf(),
        ensures
            final(self).wf(),
            final(self).ir == old(self).ir,
            r matches Ok(v) ==> finished(*final(self), v) && outermost_name(*final(self))
                == outermost_name(*old(self)),
            halts_now(*old(self)) matches Some(res) ==> r == res,
            runs(*old(self), *final(self), r),
    {
        let mut fuel: u64 = u64::MAX;
        let ghost mut first = true;
        let ghost mut trace = seq![*self];
        while fuel > 0
            invariant
                self.wf(),
                self.ir == old(self).ir,
                outermost_name(*self) == outermost_name(*old(self)),
                first ==> *self == *old(self) && fuel == u64::MAX,
                halts_now(*old(self)) is Some ==> first,
                trace.len() == u64::MAX - fuel + 1,
                trace[0] == *old(self),
                trace.last() == *self,
                forall|i: int|
                    0 <= i < trace.len() - 1 ==> #[trigger] step_post(
                        trace[i],
                        trace[i + 1],
                        Ok::<Option<Value>, InterpreterError>(None),
                    ),
            decreases fuel,
        {
            let ghost before = *self;
            let stepped = self.step();
            match stepped {
                Err(e) => {
                    proof {
                        assert(step_post(trace.last(), *self, Err::<Option<Value>, InterpreterError>(e)));
                    }
                    return Err(e);
                },
                Ok(Some(v)) => {
                    proof {
                        assert(step_post(trace.last(), *self, Ok::<Option<Value>, InterpreterError>(Some(v))));
                        assert(*self == before);
                    }
                    return Ok(v);
                },
                Ok(None) => {},
            }
            proof {
                let t2 = trace.push(*self);
                assert forall|i: int| 0 <= i < t2.len() - 1 implies #[trigger] step_post(
                    t2[i],
                    t2[i + 1],
                    Ok::<Option<Value>, InterpreterError>(None),
                ) by {
                    if i < trace.len() - 1 {
                        assert(t2[i] == trace[i] && t2[i + 1] == trace[i + 1]);
                    }
                }
                trace = t2;
            }
            proof {
                if first {
                    assert(halts_now(*old(self)) is None);
                }
                first = false;
            }
            fuel = fuel - 1;
        }
        Err(self.misc("step limit reached"))
    }

    /// The state that starts a run of `main` with `args`: every declaration has
    /// a block, `args` are bound to the arguments of `main`'s entry block, and
    /// `main`'s local allocations have blocks.
    pub fn new(ir: &'i TranslationUnit, args: Vec<Value>) -> (r: Result<State<'i>, InterpreterError>)
        ensures
            main_decl(*ir) is None ==> r is Err && r->Err_0 == InterpreterError::NoMainFunction,
            main_decl(*ir) matches Some(d) ==> (d is Variable ==> r is Err && r->Err_0
                == InterpreterError::NoMainFunction),
            main_decl(*ir) matches Some(d) ==> (d matches Declaration::Function {
                definition: None,
                ..
            } ==> r is Err && (r->Err_0 matches InterpreterError::NoFunctionDefinition { func_name }
                && func_name@ == main_name())),
            r matches Ok(s) ==> initial(s, *ir, args@),
            new_ok(*ir) ==> r is Ok,
            r matches Err(e) ==> (e == InterpreterError::NoMainFunction ==> main_decl(*ir) is None
                || main_decl(*ir) matches Some(Declaration::Variable { .. })),
    {
        let main = "main".to_owned();
        proof {
            reveal_strlit("main");
            assert(main@ =~= main_name());
        }
        let f = match find_decl(ir, &main) {
            Some(f) => f,
            None => return Err(InterpreterError::NoMainFunction),
        };
        let def = match &ir.decls[f].1 {
            Declaration::Function { definition: Some(def), .. } => def,
            Declaration::Function { definition: None, .. } => {
                return Err(InterpreterError::NoFunctionDefinition { func_name: main });
            },
            _ => return Err(InterpreterError::NoMainFunction),
        };
        let mut state = State {
            global_map: GlobalMap::new(),
            stack_frame: StackFrame::new(def.bid_init, main, f),
            stack: Vec::new(),
            memory: Memory::new(),
            ir,
        };
        assert(state.def() == *def);
        state.alloc_global_variables()?;
        state.write_args(def.bid_init, args);
        state.alloc_local_variables()?;
        proof {
            let n = ir.decls@.len() as int;
            assert forall|j: int| 0 <= j < n implies state.memory@[j] == init_block(
                ir.decls@[j].1,
                state.bids(),
            ) by {}
        }
        Ok(state)
    }
}

/// Runs `main` of `ir` on `args` and hands back what it returns.
pub fn interp(ir: &TranslationUnit, args: Vec<Value>) -> (r: Result<Value, InterpreterError>)
    ensures
        main_decl(*ir) is None ==> r is Err && r->Err_0 == InterpreterError::NoMainFunction,
        main_decl(*ir) matches Some(d) ==> (d is Variable ==> r is Err && r->Err_0
            == InterpreterError::NoMainFunction),
        main_decl(*ir) matches Some(d) ==> (d matches Declaration::Function {
            definition: None,
            ..
        } ==> r is Err && (r->Err_0 matches InterpreterError::NoFunctionDefinition { func_name }
            && func_name@ == main_name())),
        new_ok(*ir) ==> exists|s: State|
            initial(s, *ir, args@) && (#[trigger] halts_now(s) matches Some(res) ==> r == res),
        new_ok(*ir) ==> exists|s: State, e: State| initial(s, *ir, args@) && #[trigger] runs(s, e, r),
        r matches Ok(v) ==> exists|s: State|
            s.ir == ir && #[trigger] finished(s, v) && s.stack_frame.func_name@ == main_name(),
{
    let ghost args0 = args@;
    let mut state = State::new(ir, args)?;
    let ghost start = state;
    let r = state.run();
    proof {
        assert(initial(start, *ir, args0) && (halts_now(start) matches Some(res) ==> r == res));
        assert(initial(start, *ir, args0) && runs(start, state, r));
        if let Ok(v) = r {
            assert(state.ir == ir && finished(state, v) && state.stack_frame.func_name@ == main_name());
        }
    }
    r
}

/// After a jump, each argument register of the target block holds the value
/// that the jump's operand in the same position had before the jump, and the
/// target's first instruction is next.
pub proof fn law_jump_binds_arguments(before: State, after: State, arg: JumpArg, i: usize)
    requires
        jumped(before, after, arg),
        i < arg.args@.len(),
    ensures
        after.stack_frame.pc == (Pc { bid: arg.bid, iid: 0 }),
        operand_value(arg.args@[i as int], before.regs(), before.bids()) matches Some(v)
            && after.regs().contains_key(RegisterId::Arg { bid: arg.bid, aid: i })
            && after.regs()[RegisterId::Arg { bid: arg.bid, aid: i }] == v,
{
}

/// A call and the return that matches it leave the caller one instruction past
/// the call, with the returned value in the call's temp register, its other
/// registers and the suspended frames below it as they were.
pub proof fn law_call_then_return(
    caller: State,
    entered: State,
    returning: State,
    resumed: State,
    v: Value,
    callee: Operand,
    args: Seq<Operand>,
)
    requires
        called(caller, entered, callee, args),
        returning.stack@ == entered.stack@,
        returned(returning, resumed, v),
    ensures
        resumed.stack@ == caller.stack@,
        resumed.stack_frame.pc == (Pc {
            bid: caller.stack_frame.pc.bid,
            iid: (caller.stack_frame.pc.iid + 1) as usize,
        }),
        resumed.regs() == caller.regs().insert(
            RegisterId::Temp { bid: caller.stack_frame.pc.bid, iid: caller.stack_frame.pc.iid },
            v,
        ),
        resumed.stack_frame.func == caller.stack_frame.func,
        resumed.stack_frame.func_name == caller.stack_frame.func_name,
{
    assert(entered.stack@.drop_last() =~= caller.stack@);
}

/// A `Load` that succeeds right after a successful `Store`, through a pointer to
/// the same slot, reads back the stored value into its temp register.
pub proof fn law_store_then_load_instructions(
    s0: State,
    s1: State,
    s2: State,
    ptr: Operand,
    value: Operand,
    load_ptr: Operand,
)
    requires
        instruction_post(s0, s1, Instruction::Store { ptr, value }, Ok(())),
        instruction_post(s1, s2, Instruction::Load { ptr: load_ptr }, Ok(())),
        operand_value(load_ptr, s1.regs(), s1.bids()) == operand_value(ptr, s0.regs(), s0.bids()),
    ensures
        operand_value(value, s0.regs(), s0.bids()) matches Some(v) && s2.regs().contains_key(
            RegisterId::Temp { bid: s1.stack_frame.pc.bid, iid: s1.stack_frame.pc.iid },
        ) && s2.regs()[RegisterId::Temp { bid: s1.stack_frame.pc.bid, iid: s1.stack_frame.pc.iid }]
            == v,
{
}

} // verus!
