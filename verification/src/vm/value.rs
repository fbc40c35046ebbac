//! Runtime values of the interpreter and the integer instruction semantics.

use vstd::prelude::*;

verus! {

/// The four value types of WebAssembly.
#[derive(Clone, Copy, Debug, PartialEq, Eq, Structural)]
pub enum ValueType {
    I32,
    I64,
    F32,
    F64,
}

/// A runtime value. Floating-point values are held by their bit patterns.
#[derive(Clone, Copy, Debug, PartialEq, Eq, Structural)]
pub enum Value {
    I32(i32),
    I64(i64),
    F32(u32),
    F64(u64),
}

impl Value {
    pub open spec fn spec_type(self) -> ValueType {
        match self {
            Value::I32(_) => ValueType::I32,
            Value::I64(_) => ValueType::I64,
            Value::F32(_) => ValueType::F32,
            Value::F64(_) => ValueType::F64,
        }
    }

    /// The type of this value.
    pub fn value_type(&self) -> (t: ValueType)
        ensures
            t == self.spec_type(),
    {
        match self {
            Value::I32(_) => ValueType::I32,
            Value::I64(_) => ValueType::I64,
            Value::F32(_) => ValueType::F32,
            Value::F64(_) => ValueType::F64,
        }
    }
}

/// The zero value of a type, which locals start with.
pub open spec fn spec_default_value(ty: ValueType) -> Value {
    match ty {
        ValueType::I32 => Value::I32(0),
        ValueType::I64 => Value::I64(0),
        ValueType::F32 => Value::F32(0),
        ValueType::F64 => Value::F64(0),
    }
}

pub fn default_value(ty: ValueType) -> (v: Value)
    ensures
        v == spec_default_value(ty),
{
    match ty {
        ValueType::I32 => Value::I32(0),
        ValueType::I64 => Value::I64(0),
        ValueType::F32 => Value::F32(0),
        ValueType::F64 => Value::F64(0),
    }
}

/// Errors that an integer operation can raise.
#[derive(Clone, Copy, Debug, PartialEq, Eq, Structural)]
pub enum Error {
    ZeroDivision,
    IntegerOverflow,
}

/// Binary integer operators.
#[derive(Clone, Copy, Debug, PartialEq, Eq, Structural)]
pub enum IntBinOp {
    Add,
    Sub,
    Mul,
    DivS,
    DivU,
    RemS,
    RemU,
    And,
    Or,
    Xor,
    Shl,
    ShrS,
    ShrU,
    Rotl,
    Rotr,
}

/// Unary integer operators.
#[derive(Clone, Copy, Debug, PartialEq, Eq, Structural)]
pub enum IntUnOp {
    Clz,
    Ctz,
    Popcnt,
}

/// Integer comparisons.
#[derive(Clone, Copy, Debug, PartialEq, Eq, Structural)]
pub enum IntRelOp {
    Eq,
    Ne,
    LtS,
    LtU,
    GtS,
    GtU,
    LeS,
    LeU,
    GeS,
    GeU,
}

// ---------------------------------------------------------------- rotations

/// Rotation of the 32 bits of `x` to the left by `k` modulo 32.
pub open spec fn rotl32(x: u32, k: u32) -> u32 {
    let s = k % 32;
    if s == 0 {
        x
    } else {
        (x << s) | (x >> ((32 - s) as u32))
    }
}

/// Rotation of the 64 bits of `x` to the left by `k` modulo 64.
pub open spec fn rotl64(x: u64, k: u64) -> u64 {
    let s = k % 64;
    if s == 0 {
        x
    } else {
        (x << s) | (x >> ((64 - s) as u64))
    }
}

fn exec_rotl32(x: u32, k: u32) -> (r: u32)
    ensures
        r == rotl32(x, k),
{
    let s = k % 32;
    if s == 0 {
        x
    } else {
        (x << s) | (x >> (32 - s))
    }
}

fn exec_rotl64(x: u64, k: u64) -> (r: u64)
    ensures
        r == rotl64(x, k),
{
    let s = k % 64;
    if s == 0 {
        x
    } else {
        (x << s) | (x >> (64 - s))
    }
}

// ---------------------------------------------------------------- population count

/// The number of one bits in `x`.
pub open spec fn popcount32(x: u32) -> nat
    decreases x,
{
    if x == 0 {
        0
    } else {
        (x % 2) as nat + popcount32(x / 2)
    }
}

/// The number of one bits in `x`.
pub open spec fn popcount64(x: u64) -> nat
    decreases x,
{
    if x == 0 {
        0
    } else {
        (x % 2) as nat + popcount64(x / 2)
    }
}

proof fn lemma_popcount32_le_bits(x: u32, n: nat)
    requires
        n <= 32,
        x < pow2(n),
    ensures
        popcount32(x) <= n,
    decreases n,
{
    if x != 0 {
        assert(n > 0) by {
            assert(pow2(0) == 1) by { reveal_with_fuel(pow2, 1); }
        }
        assert(pow2(n) == 2 * pow2((n - 1) as nat)) by { reveal_with_fuel(pow2, 1); }
        lemma_popcount32_le_bits(x / 2, (n - 1) as nat);
    }
}

proof fn lemma_popcount64_le_bits(x: u64, n: nat)
    requires
        n <= 64,
        x < pow2(n),
    ensures
        popcount64(x) <= n,
    decreases n,
{
    if x != 0 {
        assert(n > 0) by {
            assert(pow2(0) == 1) by { reveal_with_fuel(pow2, 1); }
        }
        assert(pow2(n) == 2 * pow2((n - 1) as nat)) by { reveal_with_fuel(pow2, 1); }
        lemma_popcount64_le_bits(x / 2, (n - 1) as nat);
    }
}

/// Powers of two, as the bound on a number of bits.
pub open spec fn pow2(n: nat) -> nat
    decreases n,
{
    if n == 0 {
        1
    } else {
        2 * pow2((n - 1) as nat)
    }
}

proof fn lemma_pow2_32()
    ensures
        pow2(32) == 0x1_0000_0000,
{
    reveal_with_fuel(pow2, 33);
}

proof fn lemma_pow2_64()
    ensures
        pow2(64) == 0x1_0000_0000_0000_0000,
{
    reveal_with_fuel(pow2, 65);
}

fn exec_popcount32(x: u32) -> (r: u32)
    ensures
        r == popcount32(x),
{
    let mut rest: u32 = x;
    let mut count: u32 = 0;
    proof {
        lemma_pow2_32();
        lemma_popcount32_le_bits(x, 32);
    }
    while rest != 0
        invariant
            count + popcount32(rest) == popcount32(x),
            popcount32(x) <= 32,
        decreases rest,
    {
        count = count + rest % 2;
        rest = rest / 2;
    }
    count
}

fn exec_popcount64(x: u64) -> (r: u64)
    ensures
        r == popcount64(x),
{
    let mut rest: u64 = x;
    let mut count: u64 = 0;
    proof {
        lemma_pow2_64();
        lemma_popcount64_le_bits(x, 64);
    }
    while rest != 0
        invariant
            count + popcount64(rest) == popcount64(x),
            popcount64(x) <= 64,
        decreases rest,
    {
        count = count + rest % 2;
        rest = rest / 2;
    }
    count
}

// ---------------------------------------------------------------- division

/// Division rounded toward zero, as WebAssembly's signed division.
pub open spec fn trunc_div(x: int, d: int) -> int
    recommends
        d != 0,
{
    if x >= 0 && d > 0 {
        x / d
    } else if x < 0 && d < 0 {
        (-x) / (-d)
    } else if x < 0 {
        -((-x) / d)
    } else {
        -(x / (-d))
    }
}

/// The remainder of `trunc_div`, which takes the sign of the dividend.
pub open spec fn trunc_rem(x: int, d: int) -> int
    recommends
        d != 0,
{
    if x >= 0 && d > 0 {
        x % d
    } else if x < 0 && d < 0 {
        -((-x) % (-d))
    } else if x < 0 {
        -((-x) % d)
    } else {
        x % (-d)
    }
}

// ---------------------------------------------------------------- i32

/// The result of a binary operator on two 32-bit integers.
pub open spec fn spec_i32_binop(op: IntBinOp, a: i32, b: i32) -> Result<i32, Error> {
    match op {
        IntBinOp::Add => Ok(a.wrapping_add(b)),
        IntBinOp::Sub => Ok(a.wrapping_sub(b)),
        IntBinOp::Mul => Ok(a.wrapping_mul(b)),
        IntBinOp::DivS => if b == 0 {
            Err(Error::ZeroDivision)
        } else if a == i32::MIN && b == -1 {
            Err(Error::IntegerOverflow)
        } else {
            Ok(trunc_div(a as int, b as int) as i32)
        },
        IntBinOp::DivU => if b == 0 {
            Err(Error::ZeroDivision)
        } else {
            Ok(((a as u32) / (b as u32)) as i32)
        },
        IntBinOp::RemS => if b == 0 {
            Err(Error::ZeroDivision)
        } else if a == i32::MIN && b == -1 {
            Ok(0)
        } else {
            Ok(trunc_rem(a as int, b as int) as i32)
        },
        IntBinOp::RemU => if b == 0 {
            Err(Error::ZeroDivision)
        } else {
            Ok(((a as u32) % (b as u32)) as i32)
        },
        IntBinOp::And => Ok(a & b),
        IntBinOp::Or => Ok(a | b),
        IntBinOp::Xor => Ok(a ^ b),
        IntBinOp::Shl => Ok(((a as u32) << ((b as u32) % 32)) as i32),
        IntBinOp::ShrS => Ok(a >> ((b as u32) % 32)),
        IntBinOp::ShrU => Ok(((a as u32) >> ((b as u32) % 32)) as i32),
        IntBinOp::Rotl => Ok(rotl32(a as u32, b as u32) as i32),
        IntBinOp::Rotr => Ok(rotl32(a as u32, ((32 - (b as u32) % 32) % 32) as u32) as i32),
    }
}

/// The result of a binary operator on two 64-bit integers.
pub open spec fn spec_i64_binop(op: IntBinOp, a: i64, b: i64) -> Result<i64, Error> {
    match op {
        IntBinOp::Add => Ok(a.wrapping_add(b)),
        IntBinOp::Sub => Ok(a.wrapping_sub(b)),
        IntBinOp::Mul => Ok(a.wrapping_mul(b)),
        IntBinOp::DivS => if b == 0 {
            Err(Error::ZeroDivision)
        } else if a == i64::MIN && b == -1 {
            Err(Error::IntegerOverflow)
        } else {
            Ok(trunc_div(a as int, b as int) as i64)
        },
        IntBinOp::DivU => if b == 0 {
            Err(Error::ZeroDivision)
        } else {
            Ok(((a as u64) / (b as u64)) as i64)
        },
        IntBinOp::RemS => if b == 0 {
            Err(Error::ZeroDivision)
        } else if a == i64::MIN && b == -1 {
            Ok(0)
        } else {
            Ok(trunc_rem(a as int, b as int) as i64)
        },
        IntBinOp::RemU => if b == 0 {
            Err(Error::ZeroDivision)
        } else {
            Ok(((a as u64) % (b as u64)) as i64)
        },
        IntBinOp::And => Ok(a & b),
        IntBinOp::Or => Ok(a | b),
        IntBinOp::Xor => Ok(a ^ b),
        IntBinOp::Shl => Ok(((a as u64) << ((b as u64) % 64)) as i64),
        IntBinOp::ShrS => Ok(a >> ((b as u64) % 64)),
        IntBinOp::ShrU => Ok(((a as u64) >> ((b as u64) % 64)) as i64),
        IntBinOp::Rotl => Ok(rotl64(a as u64, b as u64) as i64),
        IntBinOp::Rotr => Ok(rotl64(a as u64, ((64 - (b as u64) % 64) % 64) as u64) as i64),
    }
}

proof fn lemma_div_bounds(x: int, d: int)
    requires
        x >= 0,
        d > 0,
    ensures
        0 <= x / d <= x,
        d >= 2 ==> x / d <= x / 2,
        0 <= x % d < d,
        x == 0 ==> x % d == 0 && x / d == 0,
{
    assert(x == 0 ==> x % d == 0 && x / d == 0) by (nonlinear_arith)
        requires
            d > 0,
    ;
    assert(0 <= x / d <= x) by (nonlinear_arith)
        requires
            x >= 0,
            d > 0,
    ;
    assert(d >= 2 ==> x / d <= x / 2) by (nonlinear_arith)
        requires
            x >= 0,
            d > 0,
    ;
}

/// Signed division of 32-bit integers, rounding toward zero.
fn i32_div_s(a: i32, b: i32) -> (r: Result<i32, Error>)
    ensures
        r == spec_i32_binop(IntBinOp::DivS, a, b),
{
    if b == 0 {
        Err(Error::ZeroDivision)
    } else if a == i32::MIN && b == -1 {
        Err(Error::IntegerOverflow)
    } else {
        proof {
            let x = a as int;
            let d = b as int;
            if x >= 0 && d > 0 { lemma_div_bounds(x, d); }
            else if x < 0 && d < 0 { lemma_div_bounds(-x, -d); }
            else if x < 0 { lemma_div_bounds(-x, d); }
            else { lemma_div_bounds(x, -d); }
        }
        match a.checked_div(b) {
            Some(q) => Ok(q),
            None => Err(Error::IntegerOverflow),
        }
    }
}

/// Signed remainder of 32-bit integers, with the sign of the dividend.
fn i32_rem_s(a: i32, b: i32) -> (r: Result<i32, Error>)
    ensures
        r == spec_i32_binop(IntBinOp::RemS, a, b),
{
    if b == 0 {
        Err(Error::ZeroDivision)
    } else if a == i32::MIN && b == -1 {
        Ok(0)
    } else {
        proof {
            let x = a as int;
            let d = b as int;
            if x >= 0 && d > 0 { lemma_div_bounds(x, d); }
            else if x < 0 && d < 0 { lemma_div_bounds(-x, -d); }
            else if x < 0 { lemma_div_bounds(-x, d); }
            else { lemma_div_bounds(x, -d); }
        }
        match a.checked_rem(b) {
            Some(q) => Ok(q),
            None => Ok(0),
        }
    }
}

/// Signed division of 64-bit integers, rounding toward zero.
fn i64_div_s(a: i64, b: i64) -> (r: Result<i64, Error>)
    ensures
        r == spec_i64_binop(IntBinOp::DivS, a, b),
{
    if b == 0 {
        Err(Error::ZeroDivision)
    } else if a == i64::MIN && b == -1 {
        Err(Error::IntegerOverflow)
    } else {
        proof {
            let x = a as int;
            let d = b as int;
            if x >= 0 && d > 0 { lemma_div_bounds(x, d); }
            else if x < 0 && d < 0 { lemma_div_bounds(-x, -d); }
            else if x < 0 { lemma_div_bounds(-x, d); }
            else { lemma_div_bounds(x, -d); }
        }
        match a.checked_div(b) {
            Some(q) => Ok(q),
            None => Err(Error::IntegerOverflow),
        }
    }
}

/// Signed remainder of 64-bit integers, with the sign of the dividend.
fn i64_rem_s(a: i64, b: i64) -> (r: Result<i64, Error>)
    ensures
        r == spec_i64_binop(IntBinOp::RemS, a, b),
{
    if b == 0 {
        Err(Error::ZeroDivision)
    } else if a == i64::MIN && b == -1 {
        Ok(0)
    } else {
        proof {
            let x = a as int;
            let d = b as int;
            if x >= 0 && d > 0 { lemma_div_bounds(x, d); }
            else if x < 0 && d < 0 { lemma_div_bounds(-x, -d); }
            else if x < 0 { lemma_div_bounds(-x, d); }
            else { lemma_div_bounds(x, -d); }
        }
        match a.checked_rem(b) {
            Some(q) => Ok(q),
            None => Ok(0),
        }
    }
}

/// Applies a binary operator to two 32-bit integers.
pub fn i32_binop(op: IntBinOp, a: i32, b: i32) -> (r: Result<i32, Error>)
    ensures
        r == spec_i32_binop(op, a, b),
{
    match op {
        IntBinOp::Add => Ok(a.wrapping_add(b)),
        IntBinOp::Sub => Ok(a.wrapping_sub(b)),
        IntBinOp::Mul => Ok(a.wrapping_mul(b)),
        IntBinOp::DivS => i32_div_s(a, b),
        IntBinOp::DivU => {
            if b == 0 {
                Err(Error::ZeroDivision)
            } else {
                assert((b as u32) != 0) by (bit_vector)
                    requires
                        b != 0,
                ;
                Ok(((a as u32) / (b as u32)) as i32)
            }
        },
        IntBinOp::RemS => i32_rem_s(a, b),
        IntBinOp::RemU => {
            if b == 0 {
                Err(Error::ZeroDivision)
            } else {
                assert((b as u32) != 0) by (bit_vector)
                    requires
                        b != 0,
                ;
                Ok(((a as u32) % (b as u32)) as i32)
            }
        },
        IntBinOp::And => Ok(a & b),
        IntBinOp::Or => Ok(a | b),
        IntBinOp::Xor => Ok(a ^ b),
        IntBinOp::Shl => Ok(((a as u32) << ((b as u32) % 32)) as i32),
        IntBinOp::ShrS => Ok(a >> ((b as u32) % 32)),
        IntBinOp::ShrU => Ok(((a as u32) >> ((b as u32) % 32)) as i32),
        IntBinOp::Rotl => Ok(exec_rotl32(a as u32, b as u32) as i32),
        IntBinOp::Rotr => Ok(exec_rotl32(a as u32, (32 - (b as u32) % 32) % 32) as i32),
    }
}

/// Applies a binary operator to two 64-bit integers.
pub fn i64_binop(op: IntBinOp, a: i64, b: i64) -> (r: Result<i64, Error>)
    ensures
        r == spec_i64_binop(op, a, b),
{
    match op {
        IntBinOp::Add => Ok(a.wrapping_add(b)),
        IntBinOp::Sub => Ok(a.wrapping_sub(b)),
        IntBinOp::Mul => Ok(a.wrapping_mul(b)),
        IntBinOp::DivS => i64_div_s(a, b),
        IntBinOp::DivU => {
            if b == 0 {
                Err(Error::ZeroDivision)
            } else {
                assert((b as u64) != 0) by (bit_vector)
                    requires
                        b != 0,
                ;
                Ok(((a as u64) / (b as u64)) as i64)
            }
        },
        IntBinOp::RemS => i64_rem_s(a, b),
        IntBinOp::RemU => {
            if b == 0 {
                Err(Error::ZeroDivision)
            } else {
                assert((b as u64) != 0) by (bit_vector)
                    requires
                        b != 0,
                ;
                Ok(((a as u64) % (b as u64)) as i64)
            }
        },
        IntBinOp::And => Ok(a & b),
        IntBinOp::Or => Ok(a | b),
        IntBinOp::Xor => Ok(a ^ b),
        IntBinOp::Shl => Ok(((a as u64) << ((b as u64) % 64)) as i64),
        IntBinOp::ShrS => Ok(a >> ((b as u64) % 64)),
        IntBinOp::ShrU => Ok(((a as u64) >> ((b as u64) % 64)) as i64),
        IntBinOp::Rotl => Ok(exec_rotl64(a as u64, b as u64) as i64),
        IntBinOp::Rotr => Ok(exec_rotl64(a as u64, (64 - (b as u64) % 64) % 64) as i64),
    }
}

/// The result of a unary operator on a 32-bit integer.
pub open spec fn spec_i32_unop(op: IntUnOp, a: i32) -> i32 {
    match op {
        IntUnOp::Clz => (a as u32).leading_zeros() as i32,
        IntUnOp::Ctz => (a as u32).trailing_zeros() as i32,
        IntUnOp::Popcnt => popcount32(a as u32) as i32,
    }
}

/// The result of a unary operator on a 64-bit integer.
pub open spec fn spec_i64_unop(op: IntUnOp, a: i64) -> i64 {
    match op {
        IntUnOp::Clz => vstd::std_specs::bits::u64_leading_zeros(a as u64) as i64,
        IntUnOp::Ctz => (a as u64).trailing_zeros() as i64,
        IntUnOp::Popcnt => popcount64(a as u64) as i64,
    }
}

/// Applies a unary operator to a 32-bit integer.
pub fn i32_unop(op: IntUnOp, a: i32) -> (r: i32)
    ensures
        r == spec_i32_unop(op, a),
{
    match op {
        IntUnOp::Clz => (a as u32).leading_zeros() as i32,
        IntUnOp::Ctz => (a as u32).trailing_zeros() as i32,
        IntUnOp::Popcnt => exec_popcount32(a as u32) as i32,
    }
}

/// Applies a unary operator to a 64-bit integer.
pub fn i64_unop(op: IntUnOp, a: i64) -> (r: i64)
    ensures
        r == spec_i64_unop(op, a),
{
    match op {
        IntUnOp::Clz => (a as u64).leading_zeros() as i64,
        IntUnOp::Ctz => (a as u64).trailing_zeros() as i64,
        IntUnOp::Popcnt => exec_popcount64(a as u64) as i64,
    }
}

/// The truth of a comparison between two 32-bit integers.
pub open spec fn spec_i32_relop(op: IntRelOp, a: i32, b: i32) -> bool {
    match op {
        IntRelOp::Eq => a == b,
        IntRelOp::Ne => a != b,
        IntRelOp::LtS => a < b,
        IntRelOp::LtU => (a as u32) < (b as u32),
        IntRelOp::GtS => a > b,
        IntRelOp::GtU => (a as u32) > (b as u32),
        IntRelOp::LeS => a <= b,
        IntRelOp::LeU => (a as u32) <= (b as u32),
        IntRelOp::GeS => a >= b,
        IntRelOp::GeU => (a as u32) >= (b as u32),
    }
}

/// The truth of a comparison between two 64-bit integers.
pub open spec fn spec_i64_relop(op: IntRelOp, a: i64, b: i64) -> bool {
    match op {
        IntRelOp::Eq => a == b,
        IntRelOp::Ne => a != b,
        IntRelOp::LtS => a < b,
        IntRelOp::LtU => (a as u64) < (b as u64),
        IntRelOp::GtS => a > b,
        IntRelOp::GtU => (a as u64) > (b as u64),
        IntRelOp::LeS => a <= b,
        IntRelOp::LeU => (a as u64) <= (b as u64),
        IntRelOp::GeS => a >= b,
        IntRelOp::GeU => (a as u64) >= (b as u64),
    }
}

/// Compares two 32-bit integers.
pub fn i32_relop(op: IntRelOp, a: i32, b: i32) -> (r: bool)
    ensures
        r == spec_i32_relop(op, a, b),
{
    match op {
        IntRelOp::Eq => a == b,
        IntRelOp::Ne => a != b,
        IntRelOp::LtS => a < b,
        IntRelOp::LtU => (a as u32) < (b as u32),
        IntRelOp::GtS => a > b,
        IntRelOp::GtU => (a as u32) > (b as u32),
        IntRelOp::LeS => a <= b,
        IntRelOp::LeU => (a as u32) <= (b as u32),
        IntRelOp::GeS => a >= b,
        IntRelOp::GeU => (a as u32) >= (b as u32),
    }
}

/// Compares two 64-bit integers.
pub fn i64_relop(op: IntRelOp, a: i64, b: i64) -> (r: bool)
    ensures
        r == spec_i64_relop(op, a, b),
{
    match op {
        IntRelOp::Eq => a == b,
        IntRelOp::Ne => a != b,
        IntRelOp::LtS => a < b,
        IntRelOp::LtU => (a as u64) < (b as u64),
        IntRelOp::GtS => a > b,
        IntRelOp::GtU => (a as u64) > (b as u64),
        IntRelOp::LeS => a <= b,
        IntRelOp::LeU => (a as u64) <= (b as u64),
        IntRelOp::GeS => a >= b,
        IntRelOp::GeU => (a as u64) >= (b as u64),
    }
}

/// `shr_u` on 32-bit integers is a logical shift: the result, read as
/// unsigned, is the operand read as unsigned divided by 2 to the shift count
/// (modulo 32), so the vacated top bits are zero.
pub proof fn lemma_i32_shr_u_divides(a: i32, b: i32)
    ensures
        spec_i32_binop(IntBinOp::ShrU, a, b) matches Ok(r)
            && r as u32 as nat == (a as u32) as nat / vstd::arithmetic::power2::pow2(((b as u32) % 32) as nat),
{
    let s = (b as u32) % 32;
    vstd::bits::lemma_u32_shr_is_div(a as u32, s);
    let x = (a as u32) >> s;
    assert((x as i32) as u32 == x) by (bit_vector);
}

/// `shr_u` on 64-bit integers is a logical shift: the result, read as
/// unsigned, is the operand read as unsigned divided by 2 to the shift count
/// (modulo 64).
pub proof fn lemma_i64_shr_u_divides(a: i64, b: i64)
    ensures
        spec_i64_binop(IntBinOp::ShrU, a, b) matches Ok(r)
            && r as u64 as nat == (a as u64) as nat / vstd::arithmetic::power2::pow2(((b as u64) % 64) as nat),
{
    let s = (b as u64) % 64;
    vstd::bits::lemma_u64_shr_is_div(a as u64, s);
    let x = (a as u64) >> s;
    assert((x as i64) as u64 == x) by (bit_vector);
}

/// Shifting a 32-bit word left by `s` multiplies it by `2^s`, dropping
/// what goes past 32 bits.
proof fn lemma_u32_shl_wraps(x: u32, s: u32)
    requires
        s < 32,
    ensures
        (x << s) as nat == (x as nat * vstd::arithmetic::power2::pow2(s as nat)) % 0x1_0000_0000,
{
    vstd::arithmetic::power2::lemma2_to64();
    if s == 0 {
        assert(x << 0u32 == x) by (bit_vector);
    } else {
        let m = 0xFFFF_FFFFu32 >> s;
        assert((x << s) == ((x & m) << s)) by (bit_vector)
            requires m == 0xFFFF_FFFFu32 >> s, s < 32;
        let ps = vstd::arithmetic::power2::pow2(s as nat);
        let pr = vstd::arithmetic::power2::pow2((32 - s) as nat);
        vstd::arithmetic::power2::lemma2_to64();
        vstd::arithmetic::power2::lemma_pow2_adds((32 - s) as nat, s as nat);
        vstd::arithmetic::power2::lemma_pow2_pos(s as nat);
        vstd::arithmetic::power2::lemma_pow2_pos((32 - s) as nat);
        assert(pr * ps == 0x1_0000_0000);
        vstd::bits::lemma_u32_shr_is_div(0xFFFF_FFFFu32, s);
        assert(m as nat == pr - 1) by (nonlinear_arith)
            requires m as nat == 0xFFFF_FFFFnat / ps, pr * ps == 0x1_0000_0000, ps > 0, pr > 0;
        assert(vstd::bits::low_bits_mask((32 - s) as nat) == pr - 1) by {
            reveal(vstd::bits::low_bits_mask);
        }
        vstd::bits::lemma_u32_pow2_no_overflow((32 - s) as nat);
        vstd::bits::lemma_u32_low_bits_mask_is_mod(x, (32 - s) as nat);
        let y = x & m;
        assert(y as nat == x as nat % pr);
        assert(y as nat * ps <= 0xFFFF_FFFF) by (nonlinear_arith)
            requires y < pr, pr * ps == 0x1_0000_0000, ps > 0;
        vstd::bits::lemma_u32_shl_is_mul(y, s);
        vstd::arithmetic::div_mod::lemma_truncate_middle(x as int, ps as int, pr as int);
        assert(ps * (x as nat) == x as nat * ps) by (nonlinear_arith);
    }
}

/// `shl` on 32-bit integers multiplies by 2 to the shift count (modulo 32),
/// keeping the low 32 bits of the product.
pub proof fn lemma_i32_shl_multiplies(a: i32, b: i32)
    ensures
        spec_i32_binop(IntBinOp::Shl, a, b) matches Ok(r)
            && r as u32 as nat == ((a as u32) as nat * vstd::arithmetic::power2::pow2(((b as u32) % 32) as nat)) % 0x1_0000_0000,
{
    let s = (b as u32) % 32;
    lemma_u32_shl_wraps(a as u32, s);
    let x = (a as u32) << s;
    assert((x as i32) as u32 == x) by (bit_vector);
}

/// Shifting a 32-bit integer right with its sign copied in divides it by
/// `2^s`, rounding down (towards minus infinity).
proof fn lemma_i32_sar_floors(a: i32, s: u32)
    requires
        s < 32,
    ensures
        (a >> s) as int == (a as int) / (vstd::arithmetic::power2::pow2(s as nat) as int),
{
    let d = vstd::arithmetic::power2::pow2(s as nat) as int;
    vstd::arithmetic::power2::lemma_pow2_pos(s as nat);
    if a >= 0 {
        assert((a >> s) as int == ((a as u32) >> s) as int) by (bit_vector)
            requires a >= 0, s < 32;
        vstd::bits::lemma_u32_shr_is_div(a as u32, s);
    } else {
        let na = !a;
        assert(na as int == -(a as int) - 1 && na >= 0) by (bit_vector)
            requires na == !a, a < 0;
        assert((a >> s) == !(na >> s)) by (bit_vector)
            requires na == !a, s < 32;
        assert((na >> s) as int == ((na as u32) >> s) as int) by (bit_vector)
            requires na >= 0, s < 32;
        vstd::bits::lemma_u32_shr_is_div(na as u32, s);
        let q = (na as int) / d;
        let r = (na as int) % d;
        vstd::arithmetic::div_mod::lemma_fundamental_div_mod(na as int, d);
        let t = na >> s;
        assert((!t) as int == -(t as int) - 1) by (bit_vector)
            requires t >= 0;
        assert(t >= 0) by (bit_vector) requires t == na >> s, na >= 0, s < 32;
        assert(a as int == (-q - 1) * d + (d - r - 1)) by (nonlinear_arith)
            requires na as int == -(a as int) - 1, na as int == d * q + r;
        vstd::arithmetic::div_mod::lemma_fundamental_div_mod_converse(a as int, d, -q - 1, d - r - 1);
    }
}

/// `shr_s` on 32-bit integers is an arithmetic shift: the result is the
/// operand divided by 2 to the shift count (modulo 32), rounded down, so the
/// sign is kept.
pub proof fn lemma_i32_shr_s_floors(a: i32, b: i32)
    ensures
        spec_i32_binop(IntBinOp::ShrS, a, b) matches Ok(r)
            && r as int == (a as int) / (vstd::arithmetic::power2::pow2(((b as u32) % 32) as nat) as int),
{
    lemma_i32_sar_floors(a, (b as u32) % 32);
}

/// Shifting a 64-bit word left by `s` multiplies it by `2^s`, dropping
/// what goes past 64 bits.
proof fn lemma_u64_shl_wraps(x: u64, s: u64)
    requires
        s < 64,
    ensures
        (x << s) as nat == (x as nat * vstd::arithmetic::power2::pow2(s as nat)) % 0x1_0000_0000_0000_0000,
{
    vstd::arithmetic::power2::lemma2_to64();
    if s == 0 {
        assert(x << 0u64 == x) by (bit_vector);
    } else {
        let m = 0xFFFF_FFFF_FFFF_FFFFu64 >> s;
        assert((x << s) == ((x & m) << s)) by (bit_vector)
            requires m == 0xFFFF_FFFF_FFFF_FFFFu64 >> s, s < 64;
        let ps = vstd::arithmetic::power2::pow2(s as nat);
        let pr = vstd::arithmetic::power2::pow2((64 - s) as nat);
        vstd::arithmetic::power2::lemma2_to64();
        vstd::arithmetic::power2::lemma_pow2_adds((64 - s) as nat, s as nat);
        vstd::arithmetic::power2::lemma_pow2_pos(s as nat);
        vstd::arithmetic::power2::lemma_pow2_pos((64 - s) as nat);
        assert(pr * ps == 0x1_0000_0000_0000_0000);
        vstd::bits::lemma_u64_shr_is_div(0xFFFF_FFFF_FFFF_FFFFu64, s);
        assert(m as nat == pr - 1) by (nonlinear_arith)
            requires m as nat == 0xFFFF_FFFF_FFFF_FFFFnat / ps, pr * ps == 0x1_0000_0000_0000_0000, ps > 0, pr > 0;
        assert(vstd::bits::low_bits_mask((64 - s) as nat) == pr - 1) by {
            reveal(vstd::bits::low_bits_mask);
        }
        vstd::bits::lemma_u64_pow2_no_overflow((64 - s) as nat);
        vstd::bits::lemma_u64_low_bits_mask_is_mod(x, (64 - s) as nat);
        let y = x & m;
        assert(y as nat == x as nat % pr);
        assert(y as nat * ps <= 0xFFFF_FFFF_FFFF_FFFF) by (nonlinear_arith)
            requires y < pr, pr * ps == 0x1_0000_0000_0000_0000, ps > 0;
        vstd::bits::lemma_u64_shl_is_mul(y, s);
        vstd::arithmetic::div_mod::lemma_truncate_middle(x as int, ps as int, pr as int);
        assert(ps * (x as nat) == x as nat * ps) by (nonlinear_arith);
    }
}

/// `shl` on 64-bit integers multiplies by 2 to the shift count (modulo 64),
/// keeping the low 64 bits of the product.
pub proof fn lemma_i64_shl_multiplies(a: i64, b: i64)
    ensures
        spec_i64_binop(IntBinOp::Shl, a, b) matches Ok(r)
            && r as u64 as nat == ((a as u64) as nat * vstd::arithmetic::power2::pow2(((b as u64) % 64) as nat)) % 0x1_0000_0000_0000_0000,
{
    let s = (b as u64) % 64;
    lemma_u64_shl_wraps(a as u64, s);
    let x = (a as u64) << s;
    assert((x as i64) as u64 == x) by (bit_vector);
}

/// Shifting a 64-bit integer right with its sign copied in divides it by
/// `2^s`, rounding down (towards minus infinity).
proof fn lemma_i64_sar_floors(a: i64, s: u64)
    requires
        s < 64,
    ensures
        (a >> s) as int == (a as int) / (vstd::arithmetic::power2::pow2(s as nat) as int),
{
    let d = vstd::arithmetic::power2::pow2(s as nat) as int;
    vstd::arithmetic::power2::lemma_pow2_pos(s as nat);
    if a >= 0 {
        assert((a >> s) as int == ((a as u64) >> s) as int) by (bit_vector)
            requires a >= 0, s < 64;
        vstd::bits::lemma_u64_shr_is_div(a as u64, s);
    } else {
        let na = !a;
        assert(na as int == -(a as int) - 1 && na >= 0) by (bit_vector)
            requires na == !a, a < 0;
        assert((a >> s) == !(na >> s)) by (bit_vector)
            requires na == !a, s < 64;
        assert((na >> s) as int == ((na as u64) >> s) as int) by (bit_vector)
            requires na >= 0, s < 64;
        vstd::bits::lemma_u64_shr_is_div(na as u64, s);
        let q = (na as int) / d;
        let r = (na as int) % d;
        vstd::arithmetic::div_mod::lemma_fundamental_div_mod(na as int, d);
        let t = na >> s;
        assert((!t) as int == -(t as int) - 1) by (bit_vector)
            requires t >= 0;
        assert(t >= 0) by (bit_vector) requires t == na >> s, na >= 0, s < 64;
        assert(a as int == (-q - 1) * d + (d - r - 1)) by (nonlinear_arith)
            requires na as int == -(a as int) - 1, na as int == d * q + r;
        vstd::arithmetic::div_mod::lemma_fundamental_div_mod_converse(a as int, d, -q - 1, d - r - 1);
    }
}

/// `shr_s` on 64-bit integers is an arithmetic shift: the result is the
/// operand divided by 2 to the shift count (modulo 64), rounded down, so the
/// sign is kept.
pub proof fn lemma_i64_shr_s_floors(a: i64, b: i64)
    ensures
        spec_i64_binop(IntBinOp::ShrS, a, b) matches Ok(r)
            && r as int == (a as int) / (vstd::arithmetic::power2::pow2(((b as u64) % 64) as nat) as int),
{
    lemma_i64_sar_floors(a, (b as u64) % 64);
}

/// Rotating a 32-bit word left by `k` (modulo 32) as arithmetic.
proof fn lemma_rotl32_value(x: u32, k: u32)
    ensures
        rotl32(x, k) as nat == if k % 32 == 0 {
            x as nat
        } else {
            (x as nat * vstd::arithmetic::power2::pow2((k % 32) as nat)) % 0x1_0000_0000
                + x as nat / vstd::arithmetic::power2::pow2((32 - k % 32) as nat)
        },
{
    let s = k % 32;
    if s != 0 {
        let t = (32 - s) as u32;
        assert((x << s) | (x >> t) == (x << s) + (x >> t)) by (bit_vector)
            requires 0 < s < 32, t == 32 - s;
        lemma_u32_shl_wraps(x, s);
        vstd::bits::lemma_u32_shr_is_div(x, t);
    }
}

/// `rotl` on 32-bit integers moves the bits left by the count (modulo 32),
/// those pushed out on the left coming back on the right: read as unsigned,
/// the result is the operand times `2^s` modulo `2^32`, plus the operand
/// divided by `2^(32 - s)`.
pub proof fn lemma_i32_rotl_rotates(a: i32, b: i32)
    ensures
        spec_i32_binop(IntBinOp::Rotl, a, b) matches Ok(r) && r as u32 as nat == ({
            let s = (b as u32) % 32;
            let x = (a as u32) as nat;
            if s == 0 {
                x
            } else {
                (x * vstd::arithmetic::power2::pow2(s as nat)) % 0x1_0000_0000 + x / vstd::arithmetic::power2::pow2((32 - s) as nat)
            }
        }),
{
    lemma_rotl32_value(a as u32, b as u32);
    let y = rotl32(a as u32, b as u32);
    assert((y as i32) as u32 == y) by (bit_vector);
}

/// `rotr` on 32-bit integers moves the bits right by the count (modulo 32),
/// those pushed out on the right coming back on the left: read as unsigned,
/// the result is the operand divided by `2^s`, plus the operand times
/// `2^(32 - s)` modulo `2^32`.
pub proof fn lemma_i32_rotr_rotates(a: i32, b: i32)
    ensures
        spec_i32_binop(IntBinOp::Rotr, a, b) matches Ok(r) && r as u32 as nat == ({
            let s = (b as u32) % 32;
            let x = (a as u32) as nat;
            if s == 0 {
                x
            } else {
                x / vstd::arithmetic::power2::pow2(s as nat) + (x * vstd::arithmetic::power2::pow2((32 - s) as nat)) % 0x1_0000_0000
            }
        }),
{
    let k = ((32 - (b as u32) % 32) % 32) as u32;
    lemma_rotl32_value(a as u32, k);
    let y = rotl32(a as u32, k);
    assert((y as i32) as u32 == y) by (bit_vector);
}

/// Rotating a 64-bit word left by `k` (modulo 64) as arithmetic.
proof fn lemma_rotl64_value(x: u64, k: u64)
    ensures
        rotl64(x, k) as nat == if k % 64 == 0 {
            x as nat
        } else {
            (x as nat * vstd::arithmetic::power2::pow2((k % 64) as nat)) % 0x1_0000_0000_0000_0000
                + x as nat / vstd::arithmetic::power2::pow2((64 - k % 64) as nat)
        },
{
    let s = k % 64;
    if s != 0 {
        let t = (64 - s) as u64;
        assert((x << s) | (x >> t) == (x << s) + (x >> t)) by (bit_vector)
            requires 0 < s < 64, t == 64 - s;
        lemma_u64_shl_wraps(x, s);
        vstd::bits::lemma_u64_shr_is_div(x, t);
    }
}

/// `rotl` on 64-bit integers moves the bits left by the count (modulo 64),
/// those pushed out on the left coming back on the right: read as unsigned,
/// the result is the operand times `2^s` modulo `2^64`, plus the operand
/// divided by `2^(64 - s)`.
pub proof fn lemma_i64_rotl_rotates(a: i64, b: i64)
    ensures
        spec_i64_binop(IntBinOp::Rotl, a, b) matches Ok(r) && r as u64 as nat == ({
            let s = (b as u64) % 64;
            let x = (a as u64) as nat;
            if s == 0 {
                x
            } else {
                (x * vstd::arithmetic::power2::pow2(s as nat)) % 0x1_0000_0000_0000_0000 + x / vstd::arithmetic::power2::pow2((64 - s) as nat)
            }
        }),
{
    lemma_rotl64_value(a as u64, b as u64);
    let y = rotl64(a as u64, b as u64);
    assert((y as i64) as u64 == y) by (bit_vector);
}

/// `rotr` on 64-bit integers moves the bits right by the count (modulo 64),
/// those pushed out on the right coming back on the left: read as unsigned,
/// the result is the operand divided by `2^s`, plus the operand times
/// `2^(64 - s)` modulo `2^64`.
pub proof fn lemma_i64_rotr_rotates(a: i64, b: i64)
    ensures
        spec_i64_binop(IntBinOp::Rotr, a, b) matches Ok(r) && r as u64 as nat == ({
            let s = (b as u64) % 64;
            let x = (a as u64) as nat;
            if s == 0 {
                x
            } else {
                x / vstd::arithmetic::power2::pow2(s as nat) + (x * vstd::arithmetic::power2::pow2((64 - s) as nat)) % 0x1_0000_0000_0000_0000
            }
        }),
{
    let k = ((64 - (b as u64) % 64) % 64) as u64;
    lemma_rotl64_value(a as u64, k);
    let y = rotl64(a as u64, k);
    assert((y as i64) as u64 == y) by (bit_vector);
}

/// Truncating division of `x` by `d`, described by what it gives back: the
/// quotient times the divisor plus the remainder is the dividend, the
/// remainder is smaller in size than the divisor and has the dividend's sign,
/// and the quotient is no larger in size than the dividend.
proof fn lemma_trunc_div_rem(x: int, d: int)
    requires
        d != 0,
    ensures
        x == trunc_div(x, d) * d + trunc_rem(x, d),
        (if trunc_rem(x, d) < 0 { -trunc_rem(x, d) } else { trunc_rem(x, d) }) < (if d < 0 { -d } else { d }),
        trunc_rem(x, d) == 0 || ((trunc_rem(x, d) < 0) == (x < 0)),
        (if trunc_div(x, d) < 0 { -trunc_div(x, d) } else { trunc_div(x, d) }) <= (if x < 0 { -x } else { x }),
        (if trunc_div(x, d) < 0 { -trunc_div(x, d) } else { trunc_div(x, d) }) == (if x < 0 { -x } else { x })
            ==> x == 0 || d == 1 || d == -1,
{
    let ax = if x < 0 { -x } else { x };
    let ad = if d < 0 { -d } else { d };
    lemma_div_bounds(ax, ad);
    vstd::arithmetic::div_mod::lemma_fundamental_div_mod(ax, ad);
    let q = ax / ad;
    let r = ax % ad;
    assert(ax == ad * q + r);
    assert(q == ax && ax != 0 ==> ad == 1) by (nonlinear_arith)
        requires ax == ad * q + r, 0 <= r < ad, ad > 0, ax >= 0;
    if x >= 0 && d > 0 {
    } else if x < 0 && d < 0 {
        assert(x == q * d + (-r)) by (nonlinear_arith) requires x == -ax, d == -ad, ax == ad * q + r;
    } else if x < 0 {
        assert(x == (-q) * d + (-r)) by (nonlinear_arith) requires x == -ax, d == ad, ax == ad * q + r;
    } else {
        assert(x == (-q) * d + r) by (nonlinear_arith) requires x == ax, d == -ad, ax == ad * q + r;
    }
}

/// Signed division on 32-bit integers truncates towards zero, and the
/// signed remainder takes the dividend's sign: quotient times divisor plus
/// remainder is the dividend, the remainder is smaller in size than the
/// divisor, and it is zero or of the dividend's sign.
pub proof fn lemma_i32_div_rem_truncate(a: i32, b: i32)
    requires
        b != 0,
        !(a == i32::MIN && b == -1),
    ensures
        spec_i32_binop(IntBinOp::DivS, a, b) matches Ok(q) && spec_i32_binop(IntBinOp::RemS, a, b) matches Ok(r)
            && a as int == q as int * b as int + r as int
            && (if r < 0 { -(r as int) } else { r as int }) < (if b < 0 { -(b as int) } else { b as int })
            && (r == 0 || ((r < 0) == (a < 0))),
{
    lemma_trunc_div_rem(a as int, b as int);
}

/// Signed division on 64-bit integers truncates towards zero, and the
/// signed remainder takes the dividend's sign, as for 32-bit integers.
pub proof fn lemma_i64_div_rem_truncate(a: i64, b: i64)
    requires
        b != 0,
        !(a == i64::MIN && b == -1),
    ensures
        spec_i64_binop(IntBinOp::DivS, a, b) matches Ok(q) && spec_i64_binop(IntBinOp::RemS, a, b) matches Ok(r)
            && a as int == q as int * b as int + r as int
            && (if r < 0 { -(r as int) } else { r as int }) < (if b < 0 { -(b as int) } else { b as int })
            && (r == 0 || ((r < 0) == (a < 0))),
{
    lemma_trunc_div_rem(a as int, b as int);
}

/// A 32-bit integer read as unsigned: negative numbers count from `2^32`.
pub open spec fn unsigned32(a: i32) -> int {
    if a < 0 { a as int + 0x1_0000_0000 } else { a as int }
}

/// A 64-bit integer read as unsigned: negative numbers count from `2^64`.
pub open spec fn unsigned64(a: i64) -> int {
    if a < 0 { a as int + 0x1_0000_0000_0000_0000 } else { a as int }
}

/// Comparisons of 32-bit integers: the signed ones compare the numbers, the
/// unsigned ones compare them read as unsigned, so that a negative number is
/// above every non-negative one.
pub proof fn lemma_i32_relop_compares(a: i32, b: i32)
    ensures
        spec_i32_relop(IntRelOp::Eq, a, b) == (a as int == b as int),
        spec_i32_relop(IntRelOp::Ne, a, b) == (a as int != b as int),
        spec_i32_relop(IntRelOp::LtS, a, b) == ((a as int) < (b as int)),
        spec_i32_relop(IntRelOp::GtS, a, b) == ((a as int) > (b as int)),
        spec_i32_relop(IntRelOp::LeS, a, b) == ((a as int) <= (b as int)),
        spec_i32_relop(IntRelOp::GeS, a, b) == ((a as int) >= (b as int)),
        spec_i32_relop(IntRelOp::LtU, a, b) == (unsigned32(a) < unsigned32(b)),
        spec_i32_relop(IntRelOp::GtU, a, b) == (unsigned32(a) > unsigned32(b)),
        spec_i32_relop(IntRelOp::LeU, a, b) == (unsigned32(a) <= unsigned32(b)),
        spec_i32_relop(IntRelOp::GeU, a, b) == (unsigned32(a) >= unsigned32(b)),
{
    lemma_unsigned32(a);
    lemma_unsigned32(b);
}

/// Comparisons of 64-bit integers, as for 32-bit integers.
pub proof fn lemma_i64_relop_compares(a: i64, b: i64)
    ensures
        spec_i64_relop(IntRelOp::Eq, a, b) == (a as int == b as int),
        spec_i64_relop(IntRelOp::Ne, a, b) == (a as int != b as int),
        spec_i64_relop(IntRelOp::LtS, a, b) == ((a as int) < (b as int)),
        spec_i64_relop(IntRelOp::GtS, a, b) == ((a as int) > (b as int)),
        spec_i64_relop(IntRelOp::LeS, a, b) == ((a as int) <= (b as int)),
        spec_i64_relop(IntRelOp::GeS, a, b) == ((a as int) >= (b as int)),
        spec_i64_relop(IntRelOp::LtU, a, b) == (unsigned64(a) < unsigned64(b)),
        spec_i64_relop(IntRelOp::GtU, a, b) == (unsigned64(a) > unsigned64(b)),
        spec_i64_relop(IntRelOp::LeU, a, b) == (unsigned64(a) <= unsigned64(b)),
        spec_i64_relop(IntRelOp::GeU, a, b) == (unsigned64(a) >= unsigned64(b)),
{
    lemma_unsigned64(a);
    lemma_unsigned64(b);
}

/// Reading a 32-bit integer as unsigned.
pub proof fn lemma_unsigned32(a: i32)
    ensures
        (a as u32) as int == unsigned32(a),
{
    if a < 0 {
        assert((a as u32) as int == a as int + 0x1_0000_0000) by (bit_vector) requires a < 0;
    }
}

/// Reading a 64-bit integer as unsigned.
pub proof fn lemma_unsigned64(a: i64)
    ensures
        (a as u64) as int == unsigned64(a),
{
    if a < 0 {
        assert((a as u64) as int == a as int + 0x1_0000_0000_0000_0000) by (bit_vector) requires a < 0;
    }
}

/// Unsigned division and remainder of 32-bit integers work on the numbers
/// read as unsigned: quotient times divisor plus remainder is the dividend,
/// and the remainder is below the divisor.
pub proof fn lemma_i32_div_rem_unsigned(a: i32, b: i32)
    requires
        b != 0,
    ensures
        spec_i32_binop(IntBinOp::DivU, a, b) matches Ok(q) && spec_i32_binop(IntBinOp::RemU, a, b) matches Ok(r)
            && unsigned32(a) == unsigned32(q) * unsigned32(b) + unsigned32(r)
            && 0 <= unsigned32(r) < unsigned32(b),
{
    lemma_unsigned32(a);
    lemma_unsigned32(b);
    let x = a as u32;
    let y = b as u32;
    assert(y != 0) by (bit_vector) requires y == b as u32, b != 0;
    vstd::arithmetic::div_mod::lemma_fundamental_div_mod(x as int, y as int);
    let q = x / y;
    let r = x % y;
    assert((q as i32) as u32 == q && (r as i32) as u32 == r) by (bit_vector);
    lemma_unsigned32(q as i32);
    lemma_unsigned32(r as i32);
    assert((x as int) == (y as int) * (q as int) + (r as int));
    assert(unsigned32(a) == unsigned32(q as i32) * unsigned32(b) + unsigned32(r as i32)) by (nonlinear_arith)
        requires unsigned32(a) == x as int, unsigned32(b) == y as int, unsigned32(q as i32) == q as int,
            unsigned32(r as i32) == r as int, (x as int) == (y as int) * (q as int) + (r as int);
    assert(0 <= unsigned32(r as i32) < unsigned32(b));
}

/// Unsigned division and remainder of 64-bit integers, as for 32-bit
/// integers.
pub proof fn lemma_i64_div_rem_unsigned(a: i64, b: i64)
    requires
        b != 0,
    ensures
        spec_i64_binop(IntBinOp::DivU, a, b) matches Ok(q) && spec_i64_binop(IntBinOp::RemU, a, b) matches Ok(r)
            && unsigned64(a) == unsigned64(q) * unsigned64(b) + unsigned64(r)
            && 0 <= unsigned64(r) < unsigned64(b),
{
    lemma_unsigned64(a);
    lemma_unsigned64(b);
    let x = a as u64;
    let y = b as u64;
    assert(y != 0) by (bit_vector) requires y == b as u64, b != 0;
    vstd::arithmetic::div_mod::lemma_fundamental_div_mod(x as int, y as int);
    let q = x / y;
    let r = x % y;
    assert((q as i64) as u64 == q && (r as i64) as u64 == r) by (bit_vector);
    lemma_unsigned64(q as i64);
    lemma_unsigned64(r as i64);
    assert((x as int) == (y as int) * (q as int) + (r as int));
    assert(unsigned64(a) == unsigned64(q as i64) * unsigned64(b) + unsigned64(r as i64)) by (nonlinear_arith)
        requires unsigned64(a) == x as int, unsigned64(b) == y as int, unsigned64(q as i64) == q as int,
            unsigned64(r as i64) == r as int, (x as int) == (y as int) * (q as int) + (r as int);
    assert(0 <= unsigned64(r as i64) < unsigned64(b));
}

/// A 32-bit integer that differs from `x` by a multiple of `2^32` is `x`
/// modulo `2^32` when read as unsigned.
proof fn lemma_unsigned32_mod(x: int, r: i32, k: int)
    requires
        x == r as int + k * 0x1_0000_0000,
    ensures
        unsigned32(r) == x % 0x1_0000_0000,
{
    let j: int = if r < 0 { 1 } else { 0 };
    assert(x == (k - j) * 0x1_0000_0000 + unsigned32(r)) by (nonlinear_arith)
        requires x == r as int + k * 0x1_0000_0000, unsigned32(r) == r as int + j * 0x1_0000_0000;
    vstd::arithmetic::div_mod::lemma_fundamental_div_mod_converse(x, 0x1_0000_0000, k - j, unsigned32(r));
}

/// Addition, subtraction and multiplication of 32-bit integers wrap: read
/// as unsigned, the result is the exact result modulo `2^32`.
pub proof fn lemma_i32_arith_wraps(a: i32, b: i32)
    ensures
        spec_i32_binop(IntBinOp::Add, a, b) matches Ok(r) && unsigned32(r) == (a as int + b as int) % 0x1_0000_0000,
        spec_i32_binop(IntBinOp::Sub, a, b) matches Ok(r) && unsigned32(r) == (a as int - b as int) % 0x1_0000_0000,
        spec_i32_binop(IntBinOp::Mul, a, b) matches Ok(r) && unsigned32(r) == (a as int * b as int) % 0x1_0000_0000,
{
    let p = 0x1_0000_0000int;
    let x = a as int + b as int;
    let ks: int = if x > i32::MAX { 1 } else if x < i32::MIN { -1 } else { 0 };
    lemma_unsigned32_mod(x, a.wrapping_add(b), ks);
    let y = a as int - b as int;
    let kd: int = if y > i32::MAX { 1 } else if y < i32::MIN { -1 } else { 0 };
    lemma_unsigned32_mod(y, a.wrapping_sub(b), kd);
    let z = a as int * b as int;
    let m = z % p;
    vstd::arithmetic::div_mod::lemma_fundamental_div_mod(z, p);
    let km: int = if m > i32::MAX { 1 } else { 0 };
    assert(z == (a.wrapping_mul(b)) as int + (z / p + km) * p) by (nonlinear_arith)
        requires z == p * (z / p) + m, a.wrapping_mul(b) as int == m - km * p;
    lemma_unsigned32_mod(z, a.wrapping_mul(b), z / p + km);
}

/// A 64-bit integer that differs from `x` by a multiple of `2^64` is `x`
/// modulo `2^64` when read as unsigned.
proof fn lemma_unsigned64_mod(x: int, r: i64, k: int)
    requires
        x == r as int + k * 0x1_0000_0000_0000_0000,
    ensures
        unsigned64(r) == x % 0x1_0000_0000_0000_0000,
{
    let j: int = if r < 0 { 1 } else { 0 };
    assert(x == (k - j) * 0x1_0000_0000_0000_0000 + unsigned64(r)) by (nonlinear_arith)
        requires x == r as int + k * 0x1_0000_0000_0000_0000, unsigned64(r) == r as int + j * 0x1_0000_0000_0000_0000;
    vstd::arithmetic::div_mod::lemma_fundamental_div_mod_converse(x, 0x1_0000_0000_0000_0000, k - j, unsigned64(r));
}

/// Addition, subtraction and multiplication of 64-bit integers wrap: read
/// as unsigned, the result is the exact result modulo `2^64`.
pub proof fn lemma_i64_arith_wraps(a: i64, b: i64)
    ensures
        spec_i64_binop(IntBinOp::Add, a, b) matches Ok(r) && unsigned64(r) == (a as int + b as int) % 0x1_0000_0000_0000_0000,
        spec_i64_binop(IntBinOp::Sub, a, b) matches Ok(r) && unsigned64(r) == (a as int - b as int) % 0x1_0000_0000_0000_0000,
        spec_i64_binop(IntBinOp::Mul, a, b) matches Ok(r) && unsigned64(r) == (a as int * b as int) % 0x1_0000_0000_0000_0000,
{
    let p = 0x1_0000_0000_0000_0000int;
    let x = a as int + b as int;
    let ks: int = if x > i64::MAX { 1 } else if x < i64::MIN { -1 } else { 0 };
    lemma_unsigned64_mod(x, a.wrapping_add(b), ks);
    let y = a as int - b as int;
    let kd: int = if y > i64::MAX { 1 } else if y < i64::MIN { -1 } else { 0 };
    lemma_unsigned64_mod(y, a.wrapping_sub(b), kd);
    let z = a as int * b as int;
    let m = z % p;
    vstd::arithmetic::div_mod::lemma_fundamental_div_mod(z, p);
    let km: int = if m > i64::MAX { 1 } else { 0 };
    assert(z == (a.wrapping_mul(b)) as int + (z / p + km) * p) by (nonlinear_arith)
        requires z == p * (z / p) + m, a.wrapping_mul(b) as int == m - km * p;
    lemma_unsigned64_mod(z, a.wrapping_mul(b), z / p + km);
}

} // verus!
