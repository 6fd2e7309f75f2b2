use vstd::prelude::*;
use vstd::arithmetic::power2::{pow2, lemma_pow2_adds, lemma_pow2_strictly_increases, lemma2_to64, lemma2_to64_rest};
use vstd::arithmetic::div_mod::lemma_mod_mod;

verus! {

/// A runtime value of the interpreted machine.
///
/// An integer keeps its width and signedness beside its magnitude, so that later
/// operations can check that their operands agree. A float is held as the bit
/// pattern of an IEEE 754 double; narrower floats are widened into it.
#[derive(Debug, PartialEq, Eq, Structural, Clone, Copy)]
pub enum Value {
    Unit,
    Int { value: u128, width: usize, is_signed: bool },
    Float { value: u64, width: usize },
    Pointer { bid: Option<usize>, offset: usize },
}

/// The number of distinct integers of the given bit width that a value can hold;
/// widths of 128 bits and more are bounded by the 128-bit container.
pub open spec fn modulus(width: nat) -> nat {
    if width < 128 {
        pow2(width)
    } else {
        pow2(128)
    }
}

/// `x` reduced to the given width, as two's complement wrapping arithmetic does.
pub open spec fn wrap(x: int, width: nat) -> int {
    x % (modulus(width) as int)
}

pub proof fn lemma_pow2_128()
    ensures
        pow2(128) == 0x1_0000_0000_0000_0000_0000_0000_0000_0000,
        pow2(127) == 0x8000_0000_0000_0000_0000_0000_0000_0000,
{
    lemma2_to64();
    lemma2_to64_rest();
    lemma_pow2_adds(64, 64);
    lemma_pow2_adds(64, 63);
}

pub proof fn lemma_modulus_bounds(width: nat)
    ensures
        0 < modulus(width) <= pow2(128),
        (pow2(128) as int) % (modulus(width) as int) == 0,
{
    lemma_pow2_128();
    if width < 128 {
        lemma_pow2_strictly_increases(width, 128);
        lemma_pow2_adds(width, (128 - width) as nat);
        vstd::arithmetic::power2::lemma_pow2_pos(width);
        vstd::arithmetic::power2::lemma_pow2_pos((128 - width) as nat);
        vstd::arithmetic::div_mod::lemma_mod_multiples_basic(
            pow2((128 - width) as nat) as int,
            pow2(width) as int,
        );
    }
}

/// Reducing modulo 2^128 first does not change a reduction to a narrower width.
pub proof fn lemma_wrap_128(x: int, width: nat)
    ensures
        wrap(x % (pow2(128) as int), width) == wrap(x, width),
{
    lemma_modulus_bounds(width);
    lemma_pow2_128();
    let m = modulus(width) as int;
    let k = (pow2(128) as int) / m;
    assert(m * k == pow2(128) as int) by (nonlinear_arith)
        requires
            (pow2(128) as int) % m == 0,
            m > 0,
            k == (pow2(128) as int) / m,
    ;
    assert(k > 0) by (nonlinear_arith)
        requires
            m * k == 0x1_0000_0000_0000_0000_0000_0000_0000_0000int,
            m > 0,
    ;
    lemma_mod_mod(x, m, k);
}

/// 2 to the power `width`, for widths below 128.
pub fn pow2_u128(width: usize) -> (r: u128)
    requires
        width < 128,
    ensures
        r as nat == pow2(width as nat),
{
    proof {
        lemma_pow2_128();
        lemma2_to64();
    }
    let mut r: u128 = 1;
    let mut i: usize = 0;
    while i < width
        invariant
            i <= width < 128,
            r as nat == pow2(i as nat),
            pow2(128) == 0x1_0000_0000_0000_0000_0000_0000_0000_0000,
        decreases width - i,
    {
        proof {
            lemma_pow2_adds(i as nat, 1);
            lemma_pow2_strictly_increases((i + 1) as nat, 128);
            assert(pow2(1) == 2) by {
                lemma2_to64();
            }
        }
        r = r * 2;
        i = i + 1;
    }
    r
}

/// Reduces `x` to the given width.
pub fn truncate(x: u128, width: usize) -> (r: u128)
    ensures
        r as int == wrap(x as int, width as nat),
{
    proof {
        lemma_pow2_128();
        lemma_modulus_bounds(width as nat);
    }
    if width < 128 {
        let m = pow2_u128(width);
        x % m
    } else {
        proof {
            vstd::arithmetic::div_mod::lemma_small_mod(x as nat, pow2(128));
        }
        x
    }
}

impl Value {
    pub fn unit() -> (r: Self)
        ensures
            r == Value::Unit,
    {
        Value::Unit
    }

    pub fn integer(value: u128, width: usize, is_signed: bool) -> (r: Self)
        ensures
            r == (Value::Int { value, width, is_signed }),
    {
        Value::Int { value, width, is_signed }
    }

    pub fn float(value: u64, width: usize) -> (r: Self)
        ensures
            r == (Value::Float { value, width }),
    {
        Value::Float { value, width }
    }

    pub fn pointer(bid: Option<usize>, offset: usize) -> (r: Self)
        ensures
            r == (Value::Pointer { bid, offset }),
    {
        Value::Pointer { bid, offset }
    }

    pub fn nullptr() -> (r: Self)
        ensures
            r == (Value::Pointer { bid: None, offset: 0 }),
    {
        Value::Pointer { bid: None, offset: 0 }
    }

    pub fn get_int(self) -> (r: Option<(u128, usize, bool)>)
        ensures
            r == (match self {
                Value::Int { value, width, is_signed } => Some((value, width, is_signed)),
                _ => None,
            }),
    {
        match self {
            Value::Int { value, width, is_signed } => Some((value, width, is_signed)),
            _ => None,
        }
    }

    pub fn get_pointer(self) -> (r: Option<(Option<usize>, usize)>)
        ensures
            r == (match self {
                Value::Pointer { bid, offset } => Some((bid, offset)),
                _ => None,
            }),
    {
        match self {
            Value::Pointer { bid, offset } => Some((bid, offset)),
            _ => None,
        }
    }
}

} // verus!
