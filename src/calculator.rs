use vstd::prelude::*;
use crate::ir::{BinaryOperator, Dtype, UnaryOperator};
use crate::value::{Value, lemma_pow2_128, lemma_wrap_128, truncate, wrap, modulus};
use vstd::arithmetic::power2::pow2;

verus! {

/// A 1-bit integer standing for a truth value.
pub open spec fn bool_value(b: bool, is_signed: bool) -> Value {
    Value::Int { value: if b { 1 } else { 0 }, width: 1, is_signed }
}

/// Binary operands are well typed when two integers agree in width and signedness.
pub open spec fn binary_well_typed(lhs: Value, rhs: Value) -> bool {
    match (lhs, rhs) {
        (Value::Int { width: wl, is_signed: sl, .. }, Value::Int { width: wr, is_signed: sr, .. }) => wl
            == wr && sl == sr,
        _ => true,
    }
}

/// What a binary operator yields on two values, or `None` where the operator or
/// the operands are not supported.
pub open spec fn binary_result(op: BinaryOperator, lhs: Value, rhs: Value) -> Option<Value> {
    match (lhs, rhs) {
        (Value::Int { value: l, width: w, is_signed: s }, Value::Int { value: r, .. }) => {
            match op {
                BinaryOperator::Plus => Some(
                    Value::Int { value: wrap(l + r, w as nat) as u128, width: w, is_signed: s },
                ),
                BinaryOperator::Minus => Some(
                    Value::Int { value: wrap(l - r, w as nat) as u128, width: w, is_signed: s },
                ),
                BinaryOperator::Multiply => Some(
                    Value::Int { value: wrap(l * r, w as nat) as u128, width: w, is_signed: s },
                ),
                BinaryOperator::Equals => Some(bool_value(l == r, s)),
                BinaryOperator::NotEquals => Some(bool_value(l != r, s)),
                BinaryOperator::Less => Some(bool_value(l < r, s)),
                BinaryOperator::GreaterOrEqual => Some(bool_value(l >= r, s)),
                _ => None,
            }
        },
        _ => None,
    }
}

/// A unary operator's operand is well typed when arithmetic negation gets a
/// signed integer and logical negation a 1-bit integer.
pub open spec fn unary_well_typed(op: UnaryOperator, operand: Value) -> bool {
    match (op, operand) {
        (UnaryOperator::Minus, Value::Int { is_signed, .. }) => is_signed,
        (UnaryOperator::Negate, Value::Int { width, .. }) => width == 1,
        _ => true,
    }
}

/// What a unary operator yields on a value, or `None` where it is not supported.
pub open spec fn unary_result(op: UnaryOperator, operand: Value) -> Option<Value> {
    match (op, operand) {
        (UnaryOperator::Plus, Value::Int { .. }) => Some(operand),
        (UnaryOperator::Minus, Value::Int { value, width, is_signed }) => Some(
            Value::Int { value: wrap(-value, width as nat) as u128, width, is_signed },
        ),
        (UnaryOperator::Negate, Value::Int { value, width, is_signed }) => Some(
            Value::Int { value: if value == 0 { 1 } else { 0 }, width, is_signed },
        ),
        _ => None,
    }
}

/// What a cast to `dtype` yields: an integer keeps its magnitude under the new
/// width and signedness, a float keeps its value under the new width.
pub open spec fn typecast_result(value: Value, dtype: Dtype) -> Option<Value> {
    match (value, dtype) {
        (Value::Int { value, .. }, Dtype::Int { width, is_signed }) => Some(
            Value::Int { value, width, is_signed },
        ),
        (Value::Float { value, .. }, Dtype::Float { width }) => Some(
            Value::Float { value, width },
        ),
        _ => None,
    }
}

pub open spec fn as_result(r: Option<Value>) -> Result<Value, ()> {
    match r {
        Some(v) => Ok(v),
        None => Err(()),
    }
}

proof fn lemma_wrap_bounds(x: int, w: nat)
    ensures
        0 <= wrap(x, w) < modulus(w),
        modulus(w) <= pow2(128),
{
    crate::value::lemma_modulus_bounds(w);
}

fn bool_int(b: bool, is_signed: bool) -> (r: Value)
    ensures
        r == bool_value(b, is_signed),
{
    Value::integer(if b { 1 } else { 0 }, 1, is_signed)
}

/// Evaluates a binary operator. Arithmetic wraps at the operands' width; a
/// comparison compares the stored magnitudes and yields a 1-bit integer
/// carrying the operands' signedness.
pub fn calculate_binary_operator_expression(op: &BinaryOperator, lhs: Value, rhs: Value) -> (r:
    Result<Value, ()>)
    requires
        binary_well_typed(lhs, rhs),
    ensures
        r == as_result(binary_result(*op, lhs, rhs)),
{
    match (lhs, rhs) {
        (Value::Int { value: l, width: w, is_signed: s }, Value::Int { value: r, .. }) => {
            proof {
                lemma_pow2_128();
                lemma_wrap_bounds(l + r, w as nat);
                lemma_wrap_bounds(l - r, w as nat);
                lemma_wrap_bounds(l * r, w as nat);
            }
            match op {
                BinaryOperator::Plus => {
                    proof {
                        lemma_wrap_128(l + r, w as nat);
                    }
                    Ok(Value::integer(truncate(l.wrapping_add(r), w), w, s))
                },
                BinaryOperator::Minus => {
                    proof {
                        lemma_wrap_128(l - r, w as nat);
                    }
                    Ok(Value::integer(truncate(l.wrapping_sub(r), w), w, s))
                },
                BinaryOperator::Multiply => {
                    proof {
                        lemma_wrap_128(l * r, w as nat);
                    }
                    Ok(Value::integer(truncate(l.wrapping_mul(r), w), w, s))
                },
                BinaryOperator::Equals => Ok(bool_int(l == r, s)),
                BinaryOperator::NotEquals => Ok(bool_int(l != r, s)),
                BinaryOperator::Less => Ok(bool_int(l < r, s)),
                BinaryOperator::GreaterOrEqual => Ok(bool_int(l >= r, s)),
                _ => Err(()),
            }
        },
        _ => Err(()),
    }
}

/// Evaluates a unary operator: identity, arithmetic negation wrapping at the
/// operand's width, or logical negation of a 1-bit integer.
pub fn calculate_unary_operator_expression(op: &UnaryOperator, operand: Value) -> (r: Result<
    Value,
    (),
>)
    requires
        unary_well_typed(*op, operand),
    ensures
        r == as_result(unary_result(*op, operand)),
{
    match (op, operand) {
        (UnaryOperator::Plus, Value::Int { value, width, is_signed }) => Ok(
            Value::integer(value, width, is_signed),
        ),
        (UnaryOperator::Minus, Value::Int { value, width, is_signed }) => {
            proof {
                lemma_pow2_128();
                lemma_wrap_bounds(-value, width as nat);
                lemma_wrap_128(-value, width as nat);
            }
            Ok(Value::integer(truncate(0u128.wrapping_sub(value), width), width, is_signed))
        },
        (UnaryOperator::Negate, Value::Int { value, width, is_signed }) => Ok(
            Value::integer(if value == 0 { 1 } else { 0 }, width, is_signed),
        ),
        _ => Err(()),
    }
}

/// Casts a value to a dtype: integer to integer and float to float.
pub fn calculate_typecast(value: Value, dtype: &Dtype) -> (r: Result<Value, ()>)
    ensures
        r == as_result(typecast_result(value, *dtype)),
{
    match (value, dtype) {
        (Value::Int { value, .. }, Dtype::Int { width, is_signed }) => Ok(
            Value::integer(value, *width, *is_signed),
        ),
        (Value::Float { value, .. }, Dtype::Float { width }) => Ok(Value::float(value, *width)),
        _ => Err(()),
    }
}

/// Addition, subtraction and multiplication of two integers of one width and
/// signedness yield an integer of that width and signedness, wrapped into it.
pub proof fn law_arithmetic_wraps(op: BinaryOperator, l: u128, r: u128, width: usize, is_signed: bool)
    requires
        op == BinaryOperator::Plus || op == BinaryOperator::Minus || op == BinaryOperator::Multiply,
    ensures
        binary_result(
            op,
            Value::Int { value: l, width, is_signed },
            Value::Int { value: r, width, is_signed },
        ) matches Some(Value::Int { value, width: w, is_signed: s }) && w == width && s == is_signed
            && value < modulus(width as nat) && value as int == wrap(
            if op == BinaryOperator::Plus {
                l + r
            } else if op == BinaryOperator::Minus {
                l - r
            } else {
                l * r
            },
            width as nat,
        ),
{
    lemma_pow2_128();
    lemma_wrap_bounds(l + r, width as nat);
    lemma_wrap_bounds(l - r, width as nat);
    lemma_wrap_bounds(l * r, width as nat);
}

/// A comparison of two integers yields a 1-bit integer, 0 or 1, whatever
/// their width.
pub proof fn law_relational_is_boolean(op: BinaryOperator, l: u128, r: u128, width: usize, is_signed: bool)
    requires
        op == BinaryOperator::Equals || op == BinaryOperator::NotEquals || op == BinaryOperator::Less
            || op == BinaryOperator::GreaterOrEqual,
    ensures
        binary_result(
            op,
            Value::Int { value: l, width, is_signed },
            Value::Int { value: r, width, is_signed },
        ) matches Some(Value::Int { value, width: w, .. }) && w == 1 && (value == 0 || value == 1),
{
}

} // verus!
