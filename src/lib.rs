use vstd::prelude::*;

pub mod calculator;
pub mod global_map;
pub mod interp;
pub mod ir;
pub mod memory;
pub mod registers;
pub mod value;

pub use calculator::{
    calculate_binary_operator_expression, calculate_typecast, calculate_unary_operator_expression,
};
pub use global_map::GlobalMap;
pub use interp::{interp, InterpreterError, Pc, StackFrame, State};
pub use memory::Memory;
pub use registers::RegisterMap;
pub use value::Value;

verus! {

} // verus!
