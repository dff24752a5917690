//! The value of each foldable operation on constant operands.
//!
//! Integer arithmetic wraps in two's complement. A division or remainder is
//! given no value when its divisor is zero or its quotient does not fit, so
//! that the instruction is left for run time. Shifts move by one bit. Float
//! constants are bit patterns: negating one flips its sign bit. The other
//! float operations are named here and valued by whoever folds: this
//! library does no float arithmetic.

use super::super::entities::Const;
use vstd::prelude::*;

verus! {
/// The float operations on two operands.
#[derive(Clone, Copy, Debug, PartialEq, Eq, Structural)]
pub enum FloatOp {
    Add,
    Sub,
    Mul,
    Div,
    Rem,
}

/// What float operations are worth: the constant that an operation on two
/// constants folds to, or `None` to leave it unfolded.
pub type FloatValues = spec_fn(FloatOp, Const, Const) -> Option<Const>;

/// No float operation has a value.
pub open spec fn no_floats() -> FloatValues {
    |op: FloatOp, l: Const, r: Const| None
}

/// The wrapping sum of two integers of one type.
pub open spec fn int_add(l: Const, r: Const) -> Option<Const> {
    match (l, r) {
        (Const::I8(a), Const::I8(b)) => Some(Const::I8(a.wrapping_add(b))),
        (Const::I16(a), Const::I16(b)) => Some(Const::I16(a.wrapping_add(b))),
        (Const::I32(a), Const::I32(b)) => Some(Const::I32(a.wrapping_add(b))),
        (Const::I64(a), Const::I64(b)) => Some(Const::I64(a.wrapping_add(b))),
        (Const::U8(a), Const::U8(b)) => Some(Const::U8(a.wrapping_add(b))),
        (Const::U16(a), Const::U16(b)) => Some(Const::U16(a.wrapping_add(b))),
        (Const::U32(a), Const::U32(b)) => Some(Const::U32(a.wrapping_add(b))),
        (Const::U64(a), Const::U64(b)) => Some(Const::U64(a.wrapping_add(b))),
        _ => None,
    }
}

pub fn fold_add(l: Const, r: Const) -> (res: Option<Const>)
    ensures
        res == int_add(l, r),
{
    match (l, r) {
        (Const::I8(a), Const::I8(b)) => Some(Const::I8(a.wrapping_add(b))),
        (Const::I16(a), Const::I16(b)) => Some(Const::I16(a.wrapping_add(b))),
        (Const::I32(a), Const::I32(b)) => Some(Const::I32(a.wrapping_add(b))),
        (Const::I64(a), Const::I64(b)) => Some(Const::I64(a.wrapping_add(b))),
        (Const::U8(a), Const::U8(b)) => Some(Const::U8(a.wrapping_add(b))),
        (Const::U16(a), Const::U16(b)) => Some(Const::U16(a.wrapping_add(b))),
        (Const::U32(a), Const::U32(b)) => Some(Const::U32(a.wrapping_add(b))),
        (Const::U64(a), Const::U64(b)) => Some(Const::U64(a.wrapping_add(b))),
        _ => None,
    }
}

/// The wrapping difference of two integers of one type.
pub open spec fn int_sub(l: Const, r: Const) -> Option<Const> {
    match (l, r) {
        (Const::I8(a), Const::I8(b)) => Some(Const::I8(a.wrapping_sub(b))),
        (Const::I16(a), Const::I16(b)) => Some(Const::I16(a.wrapping_sub(b))),
        (Const::I32(a), Const::I32(b)) => Some(Const::I32(a.wrapping_sub(b))),
        (Const::I64(a), Const::I64(b)) => Some(Const::I64(a.wrapping_sub(b))),
        (Const::U8(a), Const::U8(b)) => Some(Const::U8(a.wrapping_sub(b))),
        (Const::U16(a), Const::U16(b)) => Some(Const::U16(a.wrapping_sub(b))),
        (Const::U32(a), Const::U32(b)) => Some(Const::U32(a.wrapping_sub(b))),
        (Const::U64(a), Const::U64(b)) => Some(Const::U64(a.wrapping_sub(b))),
        _ => None,
    }
}

pub fn fold_sub(l: Const, r: Const) -> (res: Option<Const>)
    ensures
        res == int_sub(l, r),
{
    match (l, r) {
        (Const::I8(a), Const::I8(b)) => Some(Const::I8(a.wrapping_sub(b))),
        (Const::I16(a), Const::I16(b)) => Some(Const::I16(a.wrapping_sub(b))),
        (Const::I32(a), Const::I32(b)) => Some(Const::I32(a.wrapping_sub(b))),
        (Const::I64(a), Const::I64(b)) => Some(Const::I64(a.wrapping_sub(b))),
        (Const::U8(a), Const::U8(b)) => Some(Const::U8(a.wrapping_sub(b))),
        (Const::U16(a), Const::U16(b)) => Some(Const::U16(a.wrapping_sub(b))),
        (Const::U32(a), Const::U32(b)) => Some(Const::U32(a.wrapping_sub(b))),
        (Const::U64(a), Const::U64(b)) => Some(Const::U64(a.wrapping_sub(b))),
        _ => None,
    }
}

/// The wrapping product of two integers of one type.
pub open spec fn int_mul(l: Const, r: Const) -> Option<Const> {
    match (l, r) {
        (Const::I8(a), Const::I8(b)) => Some(Const::I8(a.wrapping_mul(b))),
        (Const::I16(a), Const::I16(b)) => Some(Const::I16(a.wrapping_mul(b))),
        (Const::I32(a), Const::I32(b)) => Some(Const::I32(a.wrapping_mul(b))),
        (Const::I64(a), Const::I64(b)) => Some(Const::I64(a.wrapping_mul(b))),
        (Const::U8(a), Const::U8(b)) => Some(Const::U8(a.wrapping_mul(b))),
        (Const::U16(a), Const::U16(b)) => Some(Const::U16(a.wrapping_mul(b))),
        (Const::U32(a), Const::U32(b)) => Some(Const::U32(a.wrapping_mul(b))),
        (Const::U64(a), Const::U64(b)) => Some(Const::U64(a.wrapping_mul(b))),
        _ => None,
    }
}

pub fn fold_mul(l: Const, r: Const) -> (res: Option<Const>)
    ensures
        res == int_mul(l, r),
{
    match (l, r) {
        (Const::I8(a), Const::I8(b)) => Some(Const::I8(a.wrapping_mul(b))),
        (Const::I16(a), Const::I16(b)) => Some(Const::I16(a.wrapping_mul(b))),
        (Const::I32(a), Const::I32(b)) => Some(Const::I32(a.wrapping_mul(b))),
        (Const::I64(a), Const::I64(b)) => Some(Const::I64(a.wrapping_mul(b))),
        (Const::U8(a), Const::U8(b)) => Some(Const::U8(a.wrapping_mul(b))),
        (Const::U16(a), Const::U16(b)) => Some(Const::U16(a.wrapping_mul(b))),
        (Const::U32(a), Const::U32(b)) => Some(Const::U32(a.wrapping_mul(b))),
        (Const::U64(a), Const::U64(b)) => Some(Const::U64(a.wrapping_mul(b))),
        _ => None,
    }
}

/// The quotient of two signed integers of one type, where it exists and fits.
pub open spec fn signed_div(l: Const, r: Const) -> Option<Const> {
    match (l, r) {
        (Const::I8(a), Const::I8(b)) => match a.checked_div(b) {
            Some(v) => Some(Const::I8(v)),
            None => None,
        },
        (Const::I16(a), Const::I16(b)) => match a.checked_div(b) {
            Some(v) => Some(Const::I16(v)),
            None => None,
        },
        (Const::I32(a), Const::I32(b)) => match a.checked_div(b) {
            Some(v) => Some(Const::I32(v)),
            None => None,
        },
        (Const::I64(a), Const::I64(b)) => match a.checked_div(b) {
            Some(v) => Some(Const::I64(v)),
            None => None,
        },
        _ => None,
    }
}

pub fn fold_sdiv(l: Const, r: Const) -> (res: Option<Const>)
    ensures
        res == signed_div(l, r),
{
    match (l, r) {
        (Const::I8(a), Const::I8(b)) => match a.checked_div(b) {
            Some(v) => Some(Const::I8(v)),
            None => None,
        },
        (Const::I16(a), Const::I16(b)) => match a.checked_div(b) {
            Some(v) => Some(Const::I16(v)),
            None => None,
        },
        (Const::I32(a), Const::I32(b)) => match a.checked_div(b) {
            Some(v) => Some(Const::I32(v)),
            None => None,
        },
        (Const::I64(a), Const::I64(b)) => match a.checked_div(b) {
            Some(v) => Some(Const::I64(v)),
            None => None,
        },
        _ => None,
    }
}

/// The quotient of two unsigned integers of one type, where it exists.
pub open spec fn unsigned_div(l: Const, r: Const) -> Option<Const> {
    match (l, r) {
        (Const::U8(a), Const::U8(b)) => match a.checked_div(b) {
            Some(v) => Some(Const::U8(v)),
            None => None,
        },
        (Const::U16(a), Const::U16(b)) => match a.checked_div(b) {
            Some(v) => Some(Const::U16(v)),
            None => None,
        },
        (Const::U32(a), Const::U32(b)) => match a.checked_div(b) {
            Some(v) => Some(Const::U32(v)),
            None => None,
        },
        (Const::U64(a), Const::U64(b)) => match a.checked_div(b) {
            Some(v) => Some(Const::U64(v)),
            None => None,
        },
        _ => None,
    }
}

pub fn fold_udiv(l: Const, r: Const) -> (res: Option<Const>)
    ensures
        res == unsigned_div(l, r),
{
    match (l, r) {
        (Const::U8(a), Const::U8(b)) => match a.checked_div(b) {
            Some(v) => Some(Const::U8(v)),
            None => None,
        },
        (Const::U16(a), Const::U16(b)) => match a.checked_div(b) {
            Some(v) => Some(Const::U16(v)),
            None => None,
        },
        (Const::U32(a), Const::U32(b)) => match a.checked_div(b) {
            Some(v) => Some(Const::U32(v)),
            None => None,
        },
        (Const::U64(a), Const::U64(b)) => match a.checked_div(b) {
            Some(v) => Some(Const::U64(v)),
            None => None,
        },
        _ => None,
    }
}

/// The remainder of two signed integers of one type, where the quotient exists and fits.
pub open spec fn signed_rem(l: Const, r: Const) -> Option<Const> {
    match (l, r) {
        (Const::I8(a), Const::I8(b)) => match a.checked_rem(b) {
            Some(v) => Some(Const::I8(v)),
            None => None,
        },
        (Const::I16(a), Const::I16(b)) => match a.checked_rem(b) {
            Some(v) => Some(Const::I16(v)),
            None => None,
        },
        (Const::I32(a), Const::I32(b)) => match a.checked_rem(b) {
            Some(v) => Some(Const::I32(v)),
            None => None,
        },
        (Const::I64(a), Const::I64(b)) => match a.checked_rem(b) {
            Some(v) => Some(Const::I64(v)),
            None => None,
        },
        _ => None,
    }
}

pub fn fold_srem(l: Const, r: Const) -> (res: Option<Const>)
    ensures
        res == signed_rem(l, r),
{
    match (l, r) {
        (Const::I8(a), Const::I8(b)) => match a.checked_rem(b) {
            Some(v) => Some(Const::I8(v)),
            None => None,
        },
        (Const::I16(a), Const::I16(b)) => match a.checked_rem(b) {
            Some(v) => Some(Const::I16(v)),
            None => None,
        },
        (Const::I32(a), Const::I32(b)) => match a.checked_rem(b) {
            Some(v) => Some(Const::I32(v)),
            None => None,
        },
        (Const::I64(a), Const::I64(b)) => match a.checked_rem(b) {
            Some(v) => Some(Const::I64(v)),
            None => None,
        },
        _ => None,
    }
}

/// The remainder of two unsigned integers of one type, where it exists.
pub open spec fn unsigned_rem(l: Const, r: Const) -> Option<Const> {
    match (l, r) {
        (Const::U8(a), Const::U8(b)) => match a.checked_rem(b) {
            Some(v) => Some(Const::U8(v)),
            None => None,
        },
        (Const::U16(a), Const::U16(b)) => match a.checked_rem(b) {
            Some(v) => Some(Const::U16(v)),
            None => None,
        },
        (Const::U32(a), Const::U32(b)) => match a.checked_rem(b) {
            Some(v) => Some(Const::U32(v)),
            None => None,
        },
        (Const::U64(a), Const::U64(b)) => match a.checked_rem(b) {
            Some(v) => Some(Const::U64(v)),
            None => None,
        },
        _ => None,
    }
}

pub fn fold_urem(l: Const, r: Const) -> (res: Option<Const>)
    ensures
        res == unsigned_rem(l, r),
{
    match (l, r) {
        (Const::U8(a), Const::U8(b)) => match a.checked_rem(b) {
            Some(v) => Some(Const::U8(v)),
            None => None,
        },
        (Const::U16(a), Const::U16(b)) => match a.checked_rem(b) {
            Some(v) => Some(Const::U16(v)),
            None => None,
        },
        (Const::U32(a), Const::U32(b)) => match a.checked_rem(b) {
            Some(v) => Some(Const::U32(v)),
            None => None,
        },
        (Const::U64(a), Const::U64(b)) => match a.checked_rem(b) {
            Some(v) => Some(Const::U64(v)),
            None => None,
        },
        _ => None,
    }
}

/// The bitwise or of two integers of one type.
pub open spec fn bit_or(l: Const, r: Const) -> Option<Const> {
    match (l, r) {
        (Const::I8(a), Const::I8(b)) => Some(Const::I8(a | b)),
        (Const::I16(a), Const::I16(b)) => Some(Const::I16(a | b)),
        (Const::I32(a), Const::I32(b)) => Some(Const::I32(a | b)),
        (Const::I64(a), Const::I64(b)) => Some(Const::I64(a | b)),
        (Const::U8(a), Const::U8(b)) => Some(Const::U8(a | b)),
        (Const::U16(a), Const::U16(b)) => Some(Const::U16(a | b)),
        (Const::U32(a), Const::U32(b)) => Some(Const::U32(a | b)),
        (Const::U64(a), Const::U64(b)) => Some(Const::U64(a | b)),
        _ => None,
    }
}

pub fn fold_bor(l: Const, r: Const) -> (res: Option<Const>)
    ensures
        res == bit_or(l, r),
{
    match (l, r) {
        (Const::I8(a), Const::I8(b)) => Some(Const::I8(a | b)),
        (Const::I16(a), Const::I16(b)) => Some(Const::I16(a | b)),
        (Const::I32(a), Const::I32(b)) => Some(Const::I32(a | b)),
        (Const::I64(a), Const::I64(b)) => Some(Const::I64(a | b)),
        (Const::U8(a), Const::U8(b)) => Some(Const::U8(a | b)),
        (Const::U16(a), Const::U16(b)) => Some(Const::U16(a | b)),
        (Const::U32(a), Const::U32(b)) => Some(Const::U32(a | b)),
        (Const::U64(a), Const::U64(b)) => Some(Const::U64(a | b)),
        _ => None,
    }
}

/// The bitwise and of two integers of one type.
pub open spec fn bit_and(l: Const, r: Const) -> Option<Const> {
    match (l, r) {
        (Const::I8(a), Const::I8(b)) => Some(Const::I8(a & b)),
        (Const::I16(a), Const::I16(b)) => Some(Const::I16(a & b)),
        (Const::I32(a), Const::I32(b)) => Some(Const::I32(a & b)),
        (Const::I64(a), Const::I64(b)) => Some(Const::I64(a & b)),
        (Const::U8(a), Const::U8(b)) => Some(Const::U8(a & b)),
        (Const::U16(a), Const::U16(b)) => Some(Const::U16(a & b)),
        (Const::U32(a), Const::U32(b)) => Some(Const::U32(a & b)),
        (Const::U64(a), Const::U64(b)) => Some(Const::U64(a & b)),
        _ => None,
    }
}

pub fn fold_band(l: Const, r: Const) -> (res: Option<Const>)
    ensures
        res == bit_and(l, r),
{
    match (l, r) {
        (Const::I8(a), Const::I8(b)) => Some(Const::I8(a & b)),
        (Const::I16(a), Const::I16(b)) => Some(Const::I16(a & b)),
        (Const::I32(a), Const::I32(b)) => Some(Const::I32(a & b)),
        (Const::I64(a), Const::I64(b)) => Some(Const::I64(a & b)),
        (Const::U8(a), Const::U8(b)) => Some(Const::U8(a & b)),
        (Const::U16(a), Const::U16(b)) => Some(Const::U16(a & b)),
        (Const::U32(a), Const::U32(b)) => Some(Const::U32(a & b)),
        (Const::U64(a), Const::U64(b)) => Some(Const::U64(a & b)),
        _ => None,
    }
}

/// An integer shifted left by one bit.
pub open spec fn shift_left(v: Const) -> Option<Const> {
    match v {
        Const::I8(a) => Some(Const::I8(a << 1u8)),
        Const::I16(a) => Some(Const::I16(a << 1u8)),
        Const::I32(a) => Some(Const::I32(a << 1u8)),
        Const::I64(a) => Some(Const::I64(a << 1u8)),
        Const::U8(a) => Some(Const::U8(a << 1u8)),
        Const::U16(a) => Some(Const::U16(a << 1u8)),
        Const::U32(a) => Some(Const::U32(a << 1u8)),
        Const::U64(a) => Some(Const::U64(a << 1u8)),
        _ => None,
    }
}

pub fn fold_lsh(v: Const) -> (res: Option<Const>)
    ensures
        res == shift_left(v),
{
    match v {
        Const::I8(a) => Some(Const::I8(a << 1u8)),
        Const::I16(a) => Some(Const::I16(a << 1u8)),
        Const::I32(a) => Some(Const::I32(a << 1u8)),
        Const::I64(a) => Some(Const::I64(a << 1u8)),
        Const::U8(a) => Some(Const::U8(a << 1u8)),
        Const::U16(a) => Some(Const::U16(a << 1u8)),
        Const::U32(a) => Some(Const::U32(a << 1u8)),
        Const::U64(a) => Some(Const::U64(a << 1u8)),
        _ => None,
    }
}

/// An integer shifted right by one bit, a zero entering at the top.
pub open spec fn logical_shift_right(v: Const) -> Option<Const> {
    match v {
        Const::I8(a) => Some(Const::I8(((a as u8) >> 1u8) as i8)),
        Const::I16(a) => Some(Const::I16(((a as u16) >> 1u8) as i16)),
        Const::I32(a) => Some(Const::I32(((a as u32) >> 1u8) as i32)),
        Const::I64(a) => Some(Const::I64(((a as u64) >> 1u8) as i64)),
        Const::U8(a) => Some(Const::U8(a >> 1u8)),
        Const::U16(a) => Some(Const::U16(a >> 1u8)),
        Const::U32(a) => Some(Const::U32(a >> 1u8)),
        Const::U64(a) => Some(Const::U64(a >> 1u8)),
        _ => None,
    }
}

pub fn fold_lrsh(v: Const) -> (res: Option<Const>)
    ensures
        res == logical_shift_right(v),
{
    match v {
        Const::I8(a) => Some(
            Const::I8(#[verifier::truncate] ((#[verifier::truncate] (a as u8) >> 1u8) as i8)),
        ),
        Const::I16(a) => Some(
            Const::I16(#[verifier::truncate] ((#[verifier::truncate] (a as u16) >> 1u8) as i16)),
        ),
        Const::I32(a) => Some(
            Const::I32(#[verifier::truncate] ((#[verifier::truncate] (a as u32) >> 1u8) as i32)),
        ),
        Const::I64(a) => Some(
            Const::I64(#[verifier::truncate] ((#[verifier::truncate] (a as u64) >> 1u8) as i64)),
        ),
        Const::U8(a) => Some(Const::U8(a >> 1u8)),
        Const::U16(a) => Some(Const::U16(a >> 1u8)),
        Const::U32(a) => Some(Const::U32(a >> 1u8)),
        Const::U64(a) => Some(Const::U64(a >> 1u8)),
        _ => None,
    }
}

/// An integer shifted right by one bit, the top bit kept.
pub open spec fn arithmetic_shift_right(v: Const) -> Option<Const> {
    match v {
        Const::I8(a) => Some(Const::I8(a >> 1u8)),
        Const::I16(a) => Some(Const::I16(a >> 1u8)),
        Const::I32(a) => Some(Const::I32(a >> 1u8)),
        Const::I64(a) => Some(Const::I64(a >> 1u8)),
        Const::U8(a) => Some(Const::U8(((a as i8) >> 1u8) as u8)),
        Const::U16(a) => Some(Const::U16(((a as i16) >> 1u8) as u16)),
        Const::U32(a) => Some(Const::U32(((a as i32) >> 1u8) as u32)),
        Const::U64(a) => Some(Const::U64(((a as i64) >> 1u8) as u64)),
        _ => None,
    }
}

pub fn fold_arsh(v: Const) -> (res: Option<Const>)
    ensures
        res == arithmetic_shift_right(v),
{
    match v {
        Const::I8(a) => Some(Const::I8(a >> 1u8)),
        Const::I16(a) => Some(Const::I16(a >> 1u8)),
        Const::I32(a) => Some(Const::I32(a >> 1u8)),
        Const::I64(a) => Some(Const::I64(a >> 1u8)),
        Const::U8(a) => Some(
            Const::U8(#[verifier::truncate] ((#[verifier::truncate] (a as i8) >> 1u8) as u8)),
        ),
        Const::U16(a) => Some(
            Const::U16(#[verifier::truncate] ((#[verifier::truncate] (a as i16) >> 1u8) as u16)),
        ),
        Const::U32(a) => Some(
            Const::U32(#[verifier::truncate] ((#[verifier::truncate] (a as i32) >> 1u8) as u32)),
        ),
        Const::U64(a) => Some(
            Const::U64(#[verifier::truncate] ((#[verifier::truncate] (a as i64) >> 1u8) as u64)),
        ),
        _ => None,
    }
}

/// The bitwise complement of an integer.
pub open spec fn bit_not(v: Const) -> Option<Const> {
    match v {
        Const::I8(a) => Some(Const::I8(!a)),
        Const::I16(a) => Some(Const::I16(!a)),
        Const::I32(a) => Some(Const::I32(!a)),
        Const::I64(a) => Some(Const::I64(!a)),
        Const::U8(a) => Some(Const::U8(!a)),
        Const::U16(a) => Some(Const::U16(!a)),
        Const::U32(a) => Some(Const::U32(!a)),
        Const::U64(a) => Some(Const::U64(!a)),
        _ => None,
    }
}

pub fn fold_bnot(v: Const) -> (res: Option<Const>)
    ensures
        res == bit_not(v),
{
    match v {
        Const::I8(a) => Some(Const::I8(!a)),
        Const::I16(a) => Some(Const::I16(!a)),
        Const::I32(a) => Some(Const::I32(!a)),
        Const::I64(a) => Some(Const::I64(!a)),
        Const::U8(a) => Some(Const::U8(!a)),
        Const::U16(a) => Some(Const::U16(!a)),
        Const::U32(a) => Some(Const::U32(!a)),
        Const::U64(a) => Some(Const::U64(!a)),
        _ => None,
    }
}

/// The wrapping negation of a signed integer.
pub open spec fn int_neg(v: Const) -> Option<Const> {
    match v {
        Const::I8(a) => Some(Const::I8(0i8.wrapping_sub(a))),
        Const::I16(a) => Some(Const::I16(0i16.wrapping_sub(a))),
        Const::I32(a) => Some(Const::I32(0i32.wrapping_sub(a))),
        Const::I64(a) => Some(Const::I64(0i64.wrapping_sub(a))),
        _ => None,
    }
}

pub fn fold_ineg(v: Const) -> (res: Option<Const>)
    ensures
        res == int_neg(v),
{
    match v {
        Const::I8(a) => Some(Const::I8(0i8.wrapping_sub(a))),
        Const::I16(a) => Some(Const::I16(0i16.wrapping_sub(a))),
        Const::I32(a) => Some(Const::I32(0i32.wrapping_sub(a))),
        Const::I64(a) => Some(Const::I64(0i64.wrapping_sub(a))),
        _ => None,
    }
}

/// A float with its sign bit flipped.
pub open spec fn float_neg(v: Const) -> Option<Const> {
    match v {
        Const::F32(a) => Some(Const::F32(a ^ 0x8000_0000u32)),
        Const::F64(a) => Some(Const::F64(a ^ 0x8000_0000_0000_0000u64)),
        _ => None,
    }
}

pub fn fold_fneg(v: Const) -> (res: Option<Const>)
    ensures
        res == float_neg(v),
{
    match v {
        Const::F32(a) => Some(Const::F32(a ^ 0x8000_0000u32)),
        Const::F64(a) => Some(Const::F64(a ^ 0x8000_0000_0000_0000u64)),
        _ => None,
    }
}
} // verus!
