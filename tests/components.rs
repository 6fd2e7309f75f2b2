use ir_interp::ir::{BinaryOperator, BlockId, Dtype, RegisterId, UnaryOperator};
use ir_interp::{
    calculate_binary_operator_expression, calculate_typecast, calculate_unary_operator_expression,
    GlobalMap, Memory, Pc, RegisterMap, Value,
};

fn u8v(v: u128) -> Value {
    Value::Int { value: v, width: 8, is_signed: false }
}

fn i8v(v: u128) -> Value {
    Value::Int { value: v, width: 8, is_signed: true }
}

#[test]
fn addition_wraps_at_width() {
    assert_eq!(calculate_binary_operator_expression(&BinaryOperator::Plus, u8v(255), u8v(1)), Ok(u8v(0)));
    assert_eq!(calculate_binary_operator_expression(&BinaryOperator::Plus, u8v(100), u8v(27)), Ok(u8v(127)));
}

#[test]
fn subtraction_and_multiplication_wrap() {
    assert_eq!(calculate_binary_operator_expression(&BinaryOperator::Minus, u8v(0), u8v(1)), Ok(u8v(255)));
    assert_eq!(calculate_binary_operator_expression(&BinaryOperator::Multiply, u8v(16), u8v(17)), Ok(u8v(16)));
    let big = Value::Int { value: u128::MAX, width: 128, is_signed: false };
    let one = Value::Int { value: 1, width: 128, is_signed: false };
    assert_eq!(
        calculate_binary_operator_expression(&BinaryOperator::Plus, big, one),
        Ok(Value::Int { value: 0, width: 128, is_signed: false })
    );
}

#[test]
fn relational_results_are_one_bit() {
    let t = |v: u128, s: bool| Value::Int { value: v, width: 1, is_signed: s };
    let w = |v: u128| Value::Int { value: v, width: 64, is_signed: false };
    assert_eq!(calculate_binary_operator_expression(&BinaryOperator::Equals, w(3), w(3)), Ok(t(1, false)));
    assert_eq!(calculate_binary_operator_expression(&BinaryOperator::NotEquals, w(3), w(3)), Ok(t(0, false)));
    assert_eq!(calculate_binary_operator_expression(&BinaryOperator::Less, w(2), w(3)), Ok(t(1, false)));
    assert_eq!(calculate_binary_operator_expression(&BinaryOperator::GreaterOrEqual, w(2), w(3)), Ok(t(0, false)));
}

#[test]
fn comparison_uses_stored_magnitudes() {
    let t = |v: u128| Value::Int { value: v, width: 1, is_signed: true };
    assert_eq!(calculate_binary_operator_expression(&BinaryOperator::Less, i8v(0xFF), i8v(0)), Ok(t(0)));
    assert_eq!(calculate_binary_operator_expression(&BinaryOperator::Equals, u8v(0), u8v(256)), Ok(Value::Int { value: 0, width: 1, is_signed: false }));
}

#[test]
fn unsupported_binary_operator_is_an_error() {
    assert_eq!(calculate_binary_operator_expression(&BinaryOperator::Divide, u8v(6), u8v(3)), Err(()));
    assert_eq!(calculate_binary_operator_expression(&BinaryOperator::Plus, Value::Unit, Value::Unit), Err(()));
}

#[test]
fn unary_operators() {
    assert_eq!(calculate_unary_operator_expression(&UnaryOperator::Plus, u8v(9)), Ok(u8v(9)));
    assert_eq!(calculate_unary_operator_expression(&UnaryOperator::Minus, i8v(5)), Ok(i8v(251)));
    let b = |v: u128| Value::Int { value: v, width: 1, is_signed: false };
    assert_eq!(calculate_unary_operator_expression(&UnaryOperator::Negate, b(0)), Ok(b(1)));
    assert_eq!(calculate_unary_operator_expression(&UnaryOperator::Negate, b(1)), Ok(b(0)));
    assert_eq!(calculate_unary_operator_expression(&UnaryOperator::Complement, u8v(1)), Err(()));
}

#[test]
fn typecasts() {
    assert_eq!(
        calculate_typecast(u8v(200), &Dtype::Int { width: 32, is_signed: true }),
        Ok(Value::Int { value: 200, width: 32, is_signed: true })
    );
    let bits = 1.5f64.to_bits();
    assert_eq!(
        calculate_typecast(Value::Float { value: bits, width: 64 }, &Dtype::Float { width: 32 }),
        Ok(Value::Float { value: bits, width: 32 })
    );
    assert_eq!(calculate_typecast(u8v(1), &Dtype::Float { width: 64 }), Err(()));
}

#[test]
fn default_values() {
    assert_eq!(Value::default_from_dtype(&Dtype::Unit), Value::Unit);
    assert_eq!(Value::default_from_dtype(&Dtype::Int { width: 16, is_signed: true }), Value::Int { value: 0, width: 16, is_signed: true });
    assert_eq!(Value::default_from_dtype(&Dtype::Float { width: 64 }), Value::Float { value: 0, width: 64 });
    assert_eq!(Value::default_from_dtype(&Dtype::Pointer { inner: Box::new(Dtype::Unit) }), Value::nullptr());
    assert_eq!(Value::integer(3, 8, false), u8v(3));
    assert_eq!(u8v(3).get_int(), Some((3, 8, false)));
    assert_eq!(Value::pointer(Some(2), 1).get_pointer(), Some((Some(2), 1)));
    assert_eq!(Value::Unit.get_pointer(), None);
}

#[test]
fn memory_store_then_load() {
    let mut m = Memory::new();
    let a = m.allocate(&Dtype::Int { width: 32, is_signed: true });
    let f = m.allocate_function();
    let b = m.allocate(&Dtype::Pointer { inner: Box::new(Dtype::Unit) });
    assert_eq!((a, f, b), (0, 1, 2));
    assert_eq!(m.block_len(f), 0);
    assert_eq!(m.load(a, 0), Value::Int { value: 0, width: 32, is_signed: true });
    m.store(a, 0, u8v(77));
    assert_eq!(m.load(a, 0), u8v(77));
    assert_eq!(m.load(b, 0), Value::nullptr());
}

#[test]
fn global_map_is_bidirectional() {
    let mut g = GlobalMap::new();
    assert_eq!(g.insert("x".to_string(), 0), Ok(()));
    assert_eq!(g.insert("main".to_string(), 1), Ok(()));
    assert_eq!(g.get_bid(&"main".to_string()), Some(1));
    assert_eq!(g.get_bid(&"y".to_string()), None);
    assert_eq!(g.get_var(0), Some("x".to_string()));
    assert_eq!(g.get_var(5), None);
}

#[test]
fn registers_keep_last_write() {
    let mut r = RegisterMap::new();
    let t = RegisterId::temp(BlockId(0), 1);
    assert_eq!(r.read(&t), None);
    r.write(t, u8v(1));
    r.write(RegisterId::local(0), u8v(2));
    r.write(t, u8v(3));
    assert_eq!(r.read(&t), Some(u8v(3)));
    assert_eq!(r.read(&RegisterId::local(0)), Some(u8v(2)));
    assert_eq!(r.read(&RegisterId::arg(BlockId(0), 0)), None);
}

#[test]
fn program_counter_moves() {
    let mut pc = Pc::new(BlockId(3));
    assert_eq!(pc, Pc { bid: BlockId(3), iid: 0 });
    pc.increment();
    pc.increment();
    assert_eq!(pc, Pc { bid: BlockId(3), iid: 2 });
}
