use vstd::prelude::*;

verus! {

/// The identifier of a basic block: its index in its function's block list.
#[derive(Debug, PartialEq, Eq, Structural, Clone, Copy)]
pub struct BlockId(pub usize);

/// A data type of the intermediate representation.
#[derive(Debug, PartialEq)]
pub enum Dtype {
    Unit,
    Int { width: usize, is_signed: bool },
    Float { width: usize },
    Pointer { inner: Box<Dtype> },
    Function { ret: Box<Dtype>, params: Vec<Dtype> },
}

/// Whether a value of dtype `a` may stand where dtype `b` is expected: integers
/// agree in width and signedness, floats in width, and otherwise the kinds agree.
pub open spec fn compatible(a: Dtype, b: Dtype) -> bool {
    match (a, b) {
        (Dtype::Unit, Dtype::Unit) => true,
        (Dtype::Int { width: wa, is_signed: sa }, Dtype::Int { width: wb, is_signed: sb }) => wa
            == wb && sa == sb,
        (Dtype::Float { width: wa }, Dtype::Float { width: wb }) => wa == wb,
        (Dtype::Pointer { .. }, Dtype::Pointer { .. }) => true,
        (Dtype::Function { .. }, Dtype::Function { .. }) => true,
        _ => false,
    }
}

impl Dtype {
    pub fn is_compatible(&self, other: &Dtype) -> (r: bool)
        ensures
            r == compatible(*self, *other),
    {
        match (self, other) {
            (Dtype::Unit, Dtype::Unit) => true,
            (Dtype::Int { width: wa, is_signed: sa }, Dtype::Int { width: wb, is_signed: sb }) => *wa
                == *wb && *sa == *sb,
            (Dtype::Float { width: wa }, Dtype::Float { width: wb }) => *wa == *wb,
            (Dtype::Pointer { .. }, Dtype::Pointer { .. }) => true,
            (Dtype::Function { .. }, Dtype::Function { .. }) => true,
            _ => false,
        }
    }

    pub fn is_function(&self) -> (r: bool)
        ensures
            r == (*self is Function),
    {
        match self {
            Dtype::Function { .. } => true,
            _ => false,
        }
    }
}

/// A binary operator of the source language.
#[derive(Debug, PartialEq, Eq, Structural, Clone, Copy)]
pub enum BinaryOperator {
    Index,
    Multiply,
    Divide,
    Modulo,
    Plus,
    Minus,
    ShiftLeft,
    ShiftRight,
    Less,
    Greater,
    LessOrEqual,
    GreaterOrEqual,
    Equals,
    NotEquals,
    BitwiseAnd,
    BitwiseXor,
    BitwiseOr,
    LogicalAnd,
    LogicalOr,
}

/// A unary operator of the source language.
#[derive(Debug, PartialEq, Eq, Structural, Clone, Copy)]
pub enum UnaryOperator {
    PostIncrement,
    PostDecrement,
    PreIncrement,
    PreDecrement,
    Address,
    Indirection,
    Plus,
    Minus,
    Complement,
    Negate,
    SizeOf,
}

/// A register, named within one activation of a function.
#[derive(Debug, PartialEq, Eq, Structural, Clone, Copy)]
pub enum RegisterId {
    /// The pointer to the function's local allocation with this index.
    Local { aid: usize },
    /// The block argument with this index, bound by jumps into the block.
    Arg { bid: BlockId, aid: usize },
    /// The result of the instruction at this position.
    Temp { bid: BlockId, iid: usize },
}

impl RegisterId {
    pub fn local(aid: usize) -> (r: Self)
        ensures
            r == (RegisterId::Local { aid }),
    {
        RegisterId::Local { aid }
    }

    pub fn arg(bid: BlockId, aid: usize) -> (r: Self)
        ensures
            r == (RegisterId::Arg { bid, aid }),
    {
        RegisterId::Arg { bid, aid }
    }

    pub fn temp(bid: BlockId, iid: usize) -> (r: Self)
        ensures
            r == (RegisterId::Temp { bid, iid }),
    {
        RegisterId::Temp { bid, iid }
    }
}

/// A literal operand. A float is held as the bit pattern of an IEEE 754 double.
#[derive(Debug, PartialEq)]
pub enum Constant {
    Unit,
    Int { value: u128, width: usize, is_signed: bool },
    Float { value: u64, width: usize },
    GlobalVariable { name: String, dtype: Dtype },
}

#[derive(Debug, PartialEq)]
pub enum Operand {
    Constant(Constant),
    Register { rid: RegisterId, dtype: Dtype },
}

/// The dtype of a constant; a global variable's name stands for a pointer to it.
pub open spec fn constant_dtype(c: Constant) -> Dtype {
    match c {
        Constant::Unit => Dtype::Unit,
        Constant::Int { width, is_signed, .. } => Dtype::Int { width, is_signed },
        Constant::Float { width, .. } => Dtype::Float { width },
        Constant::GlobalVariable { dtype, .. } => Dtype::Pointer { inner: Box::new(dtype) },
    }
}

pub open spec fn operand_dtype(o: Operand) -> Dtype {
    match o {
        Operand::Constant(c) => constant_dtype(c),
        Operand::Register { dtype, .. } => dtype,
    }
}

impl Operand {
    /// Whether this operand may stand where a value of `expected` is expected.
    pub fn is_compatible_with(&self, expected: &Dtype) -> (r: bool)
        ensures
            r == compatible(operand_dtype(*self), *expected),
    {
        match self {
            Operand::Register { dtype, .. } => dtype.is_compatible(expected),
            Operand::Constant(c) => match (c, expected) {
                (Constant::Unit, Dtype::Unit) => true,
                (Constant::Int { width, is_signed, .. }, Dtype::Int { width: w, is_signed: s }) => *width
                    == *w && *is_signed == *s,
                (Constant::Float { width, .. }, Dtype::Float { width: w }) => *width == *w,
                (Constant::GlobalVariable { .. }, Dtype::Pointer { .. }) => true,
                _ => false,
            },
        }
    }
}

#[derive(Debug, PartialEq)]
pub enum Instruction {
    BinOp { op: BinaryOperator, lhs: Operand, rhs: Operand, dtype: Dtype },
    UnaryOp { op: UnaryOperator, operand: Operand, dtype: Dtype },
    Store { ptr: Operand, value: Operand },
    Load { ptr: Operand },
    Call { callee: Operand, args: Vec<Operand>, return_type: Dtype },
    TypeCast { value: Operand, target_dtype: Dtype },
}

/// A jump target together with the values bound to the target block's arguments.
#[derive(Debug, PartialEq)]
pub struct JumpArg {
    pub bid: BlockId,
    pub args: Vec<Operand>,
}

#[derive(Debug, PartialEq)]
pub enum BlockExit {
    Jump { arg: JumpArg },
    ConditionalJump { condition: Operand, arg_then: JumpArg, arg_else: JumpArg },
    Switch { value: Operand, default: JumpArg, cases: Vec<(Constant, JumpArg)> },
    Return { value: Operand },
    Unreachable,
}

/// A basic block: the dtypes of its arguments, its instructions, and its exit.
#[derive(Debug, PartialEq)]
pub struct Block {
    pub phinodes: Vec<Dtype>,
    pub instructions: Vec<Instruction>,
    pub exit: BlockExit,
}

/// A function body: the dtypes of its local allocations, its blocks (a block's
/// id is its index here) and the id of its entry block.
#[derive(Debug, PartialEq)]
pub struct FunctionDefinition {
    pub allocations: Vec<Dtype>,
    pub blocks: Vec<Block>,
    pub bid_init: BlockId,
}

#[derive(Debug, PartialEq)]
pub struct FunctionSignature {
    pub ret: Dtype,
    pub params: Vec<Dtype>,
}

#[derive(Debug, PartialEq)]
pub enum Declaration {
    Variable { dtype: Dtype, initializer: Option<Constant> },
    Function { signature: FunctionSignature, definition: Option<FunctionDefinition> },
}

/// A whole program: its declarations, each under its name.
#[derive(Debug, PartialEq)]
pub struct TranslationUnit {
    pub decls: Vec<(String, Declaration)>,
}

} // verus!
