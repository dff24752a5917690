//! The instruction builder: appends instructions to a block under
//! construction and numbers the values they define.

use super::super::super::entities::{Const, Type, ValueID};
use super::super::super::inst::{BlockCall, CmpPred, Inst, InstModel, Op};
use crate::text::models;
use vstd::prelude::*;

verus! {
/// Appends to the instructions of one block. `next_id` is the number that
/// the next value defined in the function takes.
pub struct InstBuilder<'a> {
    pub block: &'a mut Vec<Inst>,
    pub next_id: &'a mut usize,
}

impl<'a> InstBuilder<'a> {
    /// Appends the assignment of `op` to a fresh value of type `ty`.
    fn assign(self, ty: Type, op: Op) -> (value: ValueID)
        requires
            *old(self.next_id) < usize::MAX,
        ensures
            value == ValueID(*old(self.next_id), ty),
            *final(self.next_id) == *old(self.next_id) + 1,
            models(final(self.block)@) == models(old(self.block)@).push(
                InstModel::Assign { dest: value, op },
            ),
    {
        let id: usize = *self.next_id;
        *self.next_id = id + 1;
        let value = ValueID(id, ty);
        let ghost before = models(self.block@);
        self.block.push(Inst::Assign { dest: value, op });
        assert(models(self.block@) =~= before.push(InstModel::Assign { dest: value, op }));
        value
    }

    /// Appends an instruction that defines no value.
    fn terminate(self, inst: Inst)
        ensures
            *final(self.next_id) == *old(self.next_id),
            models(final(self.block)@) == models(old(self.block)@).push(inst@),
    {
        let ghost before = models(self.block@);
        self.block.push(inst);
        assert(models(self.block@) =~= before.push(inst@));
    }

    /// Defines a constant of type `i8`.
    pub fn i8const(self, n: i8) -> (value: ValueID)
        requires
            *old(self.next_id) < usize::MAX,
        ensures
            value == ValueID(*old(self.next_id), Type::I8),
            *final(self.next_id) == *old(self.next_id) + 1,
            models(final(self.block)@) == models(old(self.block)@).push(
                InstModel::Assign { dest: value, op: Op::Const(Const::I8(n)) },
            ),
    {
        self.assign(Type::I8, Op::Const(Const::I8(n)))
    }

    /// Defines a constant of type `i16`.
    pub fn i16const(self, n: i16) -> (value: ValueID)
        requires
            *old(self.next_id) < usize::MAX,
        ensures
            value == ValueID(*old(self.next_id), Type::I16),
            *final(self.next_id) == *old(self.next_id) + 1,
            models(final(self.block)@) == models(old(self.block)@).push(
                InstModel::Assign { dest: value, op: Op::Const(Const::I16(n)) },
            ),
    {
        self.assign(Type::I16, Op::Const(Const::I16(n)))
    }

    /// Defines a constant of type `i32`.
    pub fn i32const(self, n: i32) -> (value: ValueID)
        requires
            *old(self.next_id) < usize::MAX,
        ensures
            value == ValueID(*old(self.next_id), Type::I32),
            *final(self.next_id) == *old(self.next_id) + 1,
            models(final(self.block)@) == models(old(self.block)@).push(
                InstModel::Assign { dest: value, op: Op::Const(Const::I32(n)) },
            ),
    {
        self.assign(Type::I32, Op::Const(Const::I32(n)))
    }

    /// Defines a constant of type `i64`.
    pub fn i64const(self, n: i64) -> (value: ValueID)
        requires
            *old(self.next_id) < usize::MAX,
        ensures
            value == ValueID(*old(self.next_id), Type::I64),
            *final(self.next_id) == *old(self.next_id) + 1,
            models(final(self.block)@) == models(old(self.block)@).push(
                InstModel::Assign { dest: value, op: Op::Const(Const::I64(n)) },
            ),
    {
        self.assign(Type::I64, Op::Const(Const::I64(n)))
    }

    /// Defines a constant of type `u8`.
    pub fn u8const(self, n: u8) -> (value: ValueID)
        requires
            *old(self.next_id) < usize::MAX,
        ensures
            value == ValueID(*old(self.next_id), Type::U8),
            *final(self.next_id) == *old(self.next_id) + 1,
            models(final(self.block)@) == models(old(self.block)@).push(
                InstModel::Assign { dest: value, op: Op::Const(Const::U8(n)) },
            ),
    {
        self.assign(Type::U8, Op::Const(Const::U8(n)))
    }

    /// Defines a constant of type `u16`.
    pub fn u16const(self, n: u16) -> (value: ValueID)
        requires
            *old(self.next_id) < usize::MAX,
        ensures
            value == ValueID(*old(self.next_id), Type::U16),
            *final(self.next_id) == *old(self.next_id) + 1,
            models(final(self.block)@) == models(old(self.block)@).push(
                InstModel::Assign { dest: value, op: Op::Const(Const::U16(n)) },
            ),
    {
        self.assign(Type::U16, Op::Const(Const::U16(n)))
    }

    /// Defines a constant of type `u32`.
    pub fn u32const(self, n: u32) -> (value: ValueID)
        requires
            *old(self.next_id) < usize::MAX,
        ensures
            value == ValueID(*old(self.next_id), Type::U32),
            *final(self.next_id) == *old(self.next_id) + 1,
            models(final(self.block)@) == models(old(self.block)@).push(
                InstModel::Assign { dest: value, op: Op::Const(Const::U32(n)) },
            ),
    {
        self.assign(Type::U32, Op::Const(Const::U32(n)))
    }

    /// Defines a constant of type `u64`.
    pub fn u64const(self, n: u64) -> (value: ValueID)
        requires
            *old(self.next_id) < usize::MAX,
        ensures
            value == ValueID(*old(self.next_id), Type::U64),
            *final(self.next_id) == *old(self.next_id) + 1,
            models(final(self.block)@) == models(old(self.block)@).push(
                InstModel::Assign { dest: value, op: Op::Const(Const::U64(n)) },
            ),
    {
        self.assign(Type::U64, Op::Const(Const::U64(n)))
    }

    /// Defines a 32-bit float constant, given by its bit pattern.
    pub fn f32const(self, bits: u32) -> (value: ValueID)
        requires
            *old(self.next_id) < usize::MAX,
        ensures
            value == ValueID(*old(self.next_id), Type::F32),
            *final(self.next_id) == *old(self.next_id) + 1,
            models(final(self.block)@) == models(old(self.block)@).push(
                InstModel::Assign { dest: value, op: Op::Const(Const::F32(bits)) },
            ),
    {
        self.assign(Type::F32, Op::Const(Const::F32(bits)))
    }

    /// Defines a 64-bit float constant, given by its bit pattern.
    pub fn f64const(self, bits: u64) -> (value: ValueID)
        requires
            *old(self.next_id) < usize::MAX,
        ensures
            value == ValueID(*old(self.next_id), Type::F64),
            *final(self.next_id) == *old(self.next_id) + 1,
            models(final(self.block)@) == models(old(self.block)@).push(
                InstModel::Assign { dest: value, op: Op::Const(Const::F64(bits)) },
            ),
    {
        self.assign(Type::F64, Op::Const(Const::F64(bits)))
    }

    /// Defines a boolean constant: 1 for true, 0 for false.
    pub fn bool_(self, b: bool) -> (value: ValueID)
        requires
            *old(self.next_id) < usize::MAX,
        ensures
            value == ValueID(*old(self.next_id), Type::Bool),
            *final(self.next_id) == *old(self.next_id) + 1,
            models(final(self.block)@) == models(old(self.block)@).push(
                InstModel::Assign {
                    dest: value,
                    op: Op::Const(
                        Const::Bool(
                            if b {
                                1u8
                            } else {
                                0u8
                            },
                        ),
                    ),
                },
            ),
    {
        let bit: u8 = if b {
            1
        } else {
            0
        };
        self.assign(Type::Bool, Op::Const(Const::Bool(bit)))
    }

    /// Defines the void constant.
    pub fn void(self) -> (value: ValueID)
        requires
            *old(self.next_id) < usize::MAX,
        ensures
            value == ValueID(*old(self.next_id), Type::Void),
            *final(self.next_id) == *old(self.next_id) + 1,
            models(final(self.block)@) == models(old(self.block)@).push(
                InstModel::Assign { dest: value, op: Op::Const(Const::Void) },
            ),
    {
        self.assign(Type::Void, Op::Const(Const::Void))
    }

    /// Defines the sum of two values; the result has the type of the left one.
    pub fn iadd(self, l: ValueID, r: ValueID) -> (value: ValueID)
        requires
            *old(self.next_id) < usize::MAX,
        ensures
            value == ValueID(*old(self.next_id), l.1),
            *final(self.next_id) == *old(self.next_id) + 1,
            models(final(self.block)@) == models(old(self.block)@).push(
                InstModel::Assign { dest: value, op: Op::IAdd { left: l, right: r } },
            ),
    {
        self.assign(l.1, Op::IAdd { left: l, right: r })
    }

    /// Defines the difference of two values; the result has the type of the left one.
    pub fn isub(self, l: ValueID, r: ValueID) -> (value: ValueID)
        requires
            *old(self.next_id) < usize::MAX,
        ensures
            value == ValueID(*old(self.next_id), l.1),
            *final(self.next_id) == *old(self.next_id) + 1,
            models(final(self.block)@) == models(old(self.block)@).push(
                InstModel::Assign { dest: value, op: Op::ISub { left: l, right: r } },
            ),
    {
        self.assign(l.1, Op::ISub { left: l, right: r })
    }

    /// Defines the product of two values; the result has the type of the left one.
    pub fn imul(self, l: ValueID, r: ValueID) -> (value: ValueID)
        requires
            *old(self.next_id) < usize::MAX,
        ensures
            value == ValueID(*old(self.next_id), l.1),
            *final(self.next_id) == *old(self.next_id) + 1,
            models(final(self.block)@) == models(old(self.block)@).push(
                InstModel::Assign { dest: value, op: Op::IMul { left: l, right: r } },
            ),
    {
        self.assign(l.1, Op::IMul { left: l, right: r })
    }

    /// Defines the signed quotient of two values; the result has the type of the left one.
    pub fn sdiv(self, l: ValueID, r: ValueID) -> (value: ValueID)
        requires
            *old(self.next_id) < usize::MAX,
        ensures
            value == ValueID(*old(self.next_id), l.1),
            *final(self.next_id) == *old(self.next_id) + 1,
            models(final(self.block)@) == models(old(self.block)@).push(
                InstModel::Assign { dest: value, op: Op::SDiv { left: l, right: r } },
            ),
    {
        self.assign(l.1, Op::SDiv { left: l, right: r })
    }

    /// Defines the unsigned quotient of two values; the result has the type of the left one.
    pub fn udiv(self, l: ValueID, r: ValueID) -> (value: ValueID)
        requires
            *old(self.next_id) < usize::MAX,
        ensures
            value == ValueID(*old(self.next_id), l.1),
            *final(self.next_id) == *old(self.next_id) + 1,
            models(final(self.block)@) == models(old(self.block)@).push(
                InstModel::Assign { dest: value, op: Op::UDiv { left: l, right: r } },
            ),
    {
        self.assign(l.1, Op::UDiv { left: l, right: r })
    }

    /// Defines the signed remainder of two values; the result has the type of the left one.
    pub fn srem(self, l: ValueID, r: ValueID) -> (value: ValueID)
        requires
            *old(self.next_id) < usize::MAX,
        ensures
            value == ValueID(*old(self.next_id), l.1),
            *final(self.next_id) == *old(self.next_id) + 1,
            models(final(self.block)@) == models(old(self.block)@).push(
                InstModel::Assign { dest: value, op: Op::SRem { left: l, right: r } },
            ),
    {
        self.assign(l.1, Op::SRem { left: l, right: r })
    }

    /// Defines the unsigned remainder of two values; the result has the type of the left one.
    pub fn urem(self, l: ValueID, r: ValueID) -> (value: ValueID)
        requires
            *old(self.next_id) < usize::MAX,
        ensures
            value == ValueID(*old(self.next_id), l.1),
            *final(self.next_id) == *old(self.next_id) + 1,
            models(final(self.block)@) == models(old(self.block)@).push(
                InstModel::Assign { dest: value, op: Op::URem { left: l, right: r } },
            ),
    {
        self.assign(l.1, Op::URem { left: l, right: r })
    }

    /// Defines the float sum of two values; the result has the type of the left one.
    pub fn fadd(self, l: ValueID, r: ValueID) -> (value: ValueID)
        requires
            *old(self.next_id) < usize::MAX,
        ensures
            value == ValueID(*old(self.next_id), l.1),
            *final(self.next_id) == *old(self.next_id) + 1,
            models(final(self.block)@) == models(old(self.block)@).push(
                InstModel::Assign { dest: value, op: Op::FAdd { left: l, right: r } },
            ),
    {
        self.assign(l.1, Op::FAdd { left: l, right: r })
    }

    /// Defines the float difference of two values; the result has the type of the left one.
    pub fn fsub(self, l: ValueID, r: ValueID) -> (value: ValueID)
        requires
            *old(self.next_id) < usize::MAX,
        ensures
            value == ValueID(*old(self.next_id), l.1),
            *final(self.next_id) == *old(self.next_id) + 1,
            models(final(self.block)@) == models(old(self.block)@).push(
                InstModel::Assign { dest: value, op: Op::FSub { left: l, right: r } },
            ),
    {
        self.assign(l.1, Op::FSub { left: l, right: r })
    }

    /// Defines the float product of two values; the result has the type of the left one.
    pub fn fmul(self, l: ValueID, r: ValueID) -> (value: ValueID)
        requires
            *old(self.next_id) < usize::MAX,
        ensures
            value == ValueID(*old(self.next_id), l.1),
            *final(self.next_id) == *old(self.next_id) + 1,
            models(final(self.block)@) == models(old(self.block)@).push(
                InstModel::Assign { dest: value, op: Op::FMul { left: l, right: r } },
            ),
    {
        self.assign(l.1, Op::FMul { left: l, right: r })
    }

    /// Defines the float quotient of two values; the result has the type of the left one.
    pub fn fdiv(self, l: ValueID, r: ValueID) -> (value: ValueID)
        requires
            *old(self.next_id) < usize::MAX,
        ensures
            value == ValueID(*old(self.next_id), l.1),
            *final(self.next_id) == *old(self.next_id) + 1,
            models(final(self.block)@) == models(old(self.block)@).push(
                InstModel::Assign { dest: value, op: Op::FDiv { left: l, right: r } },
            ),
    {
        self.assign(l.1, Op::FDiv { left: l, right: r })
    }

    /// Defines the float remainder of two values; the result has the type of the left one.
    pub fn frem(self, l: ValueID, r: ValueID) -> (value: ValueID)
        requires
            *old(self.next_id) < usize::MAX,
        ensures
            value == ValueID(*old(self.next_id), l.1),
            *final(self.next_id) == *old(self.next_id) + 1,
            models(final(self.block)@) == models(old(self.block)@).push(
                InstModel::Assign { dest: value, op: Op::FRem { left: l, right: r } },
            ),
    {
        self.assign(l.1, Op::FRem { left: l, right: r })
    }

    /// Defines the bitwise or of two values; the result has the type of the left one.
    pub fn bor(self, l: ValueID, r: ValueID) -> (value: ValueID)
        requires
            *old(self.next_id) < usize::MAX,
        ensures
            value == ValueID(*old(self.next_id), l.1),
            *final(self.next_id) == *old(self.next_id) + 1,
            models(final(self.block)@) == models(old(self.block)@).push(
                InstModel::Assign { dest: value, op: Op::BOr { left: l, right: r } },
            ),
    {
        self.assign(l.1, Op::BOr { left: l, right: r })
    }

    /// Defines the bitwise and of two values; the result has the type of the left one.
    pub fn band(self, l: ValueID, r: ValueID) -> (value: ValueID)
        requires
            *old(self.next_id) < usize::MAX,
        ensures
            value == ValueID(*old(self.next_id), l.1),
            *final(self.next_id) == *old(self.next_id) + 1,
            models(final(self.block)@) == models(old(self.block)@).push(
                InstModel::Assign { dest: value, op: Op::BAnd { left: l, right: r } },
            ),
    {
        self.assign(l.1, Op::BAnd { left: l, right: r })
    }

    /// Defines a left shift by one of a value; the result has its type.
    pub fn lsh(self, n: ValueID) -> (value: ValueID)
        requires
            *old(self.next_id) < usize::MAX,
        ensures
            value == ValueID(*old(self.next_id), n.1),
            *final(self.next_id) == *old(self.next_id) + 1,
            models(final(self.block)@) == models(old(self.block)@).push(
                InstModel::Assign { dest: value, op: Op::Lsh(n) },
            ),
    {
        self.assign(n.1, Op::Lsh(n))
    }

    /// Defines a logical right shift by one of a value; the result has its type.
    pub fn lrsh(self, n: ValueID) -> (value: ValueID)
        requires
            *old(self.next_id) < usize::MAX,
        ensures
            value == ValueID(*old(self.next_id), n.1),
            *final(self.next_id) == *old(self.next_id) + 1,
            models(final(self.block)@) == models(old(self.block)@).push(
                InstModel::Assign { dest: value, op: Op::LRsh(n) },
            ),
    {
        self.assign(n.1, Op::LRsh(n))
    }

    /// Defines an arithmetic right shift by one of a value; the result has its type.
    pub fn arsh(self, n: ValueID) -> (value: ValueID)
        requires
            *old(self.next_id) < usize::MAX,
        ensures
            value == ValueID(*old(self.next_id), n.1),
            *final(self.next_id) == *old(self.next_id) + 1,
            models(final(self.block)@) == models(old(self.block)@).push(
                InstModel::Assign { dest: value, op: Op::ARsh(n) },
            ),
    {
        self.assign(n.1, Op::ARsh(n))
    }

    /// Defines the bitwise complement of a value; the result has its type.
    pub fn bnot(self, n: ValueID) -> (value: ValueID)
        requires
            *old(self.next_id) < usize::MAX,
        ensures
            value == ValueID(*old(self.next_id), n.1),
            *final(self.next_id) == *old(self.next_id) + 1,
            models(final(self.block)@) == models(old(self.block)@).push(
                InstModel::Assign { dest: value, op: Op::BNot(n) },
            ),
    {
        self.assign(n.1, Op::BNot(n))
    }

    /// Defines the integer negation of a value; the result has its type.
    pub fn ineg(self, n: ValueID) -> (value: ValueID)
        requires
            *old(self.next_id) < usize::MAX,
        ensures
            value == ValueID(*old(self.next_id), n.1),
            *final(self.next_id) == *old(self.next_id) + 1,
            models(final(self.block)@) == models(old(self.block)@).push(
                InstModel::Assign { dest: value, op: Op::INeg(n) },
            ),
    {
        self.assign(n.1, Op::INeg(n))
    }

    /// Defines the float negation of a value; the result has its type.
    pub fn fneg(self, n: ValueID) -> (value: ValueID)
        requires
            *old(self.next_id) < usize::MAX,
        ensures
            value == ValueID(*old(self.next_id), n.1),
            *final(self.next_id) == *old(self.next_id) + 1,
            models(final(self.block)@) == models(old(self.block)@).push(
                InstModel::Assign { dest: value, op: Op::FNeg(n) },
            ),
    {
        self.assign(n.1, Op::FNeg(n))
    }

    /// Defines the outcome of an integer comparison, a boolean.
    pub fn icmp(self, l: ValueID, r: ValueID, predicate: CmpPred) -> (value: ValueID)
        requires
            *old(self.next_id) < usize::MAX,
        ensures
            value == ValueID(*old(self.next_id), Type::Bool),
            *final(self.next_id) == *old(self.next_id) + 1,
            models(final(self.block)@) == models(old(self.block)@).push(
                InstModel::Assign { dest: value, op: Op::ICmp { predicate, left: l, right: r } },
            ),
    {
        self.assign(Type::Bool, Op::ICmp { predicate, left: l, right: r })
    }

    /// Defines the outcome of a float comparison, a boolean.
    pub fn fcmp(self, l: ValueID, r: ValueID, predicate: CmpPred) -> (value: ValueID)
        requires
            *old(self.next_id) < usize::MAX,
        ensures
            value == ValueID(*old(self.next_id), Type::Bool),
            *final(self.next_id) == *old(self.next_id) + 1,
            models(final(self.block)@) == models(old(self.block)@).push(
                InstModel::Assign { dest: value, op: Op::FCmp { predicate, left: l, right: r } },
            ),
    {
        self.assign(Type::Bool, Op::FCmp { predicate, left: l, right: r })
    }

    /// Ends the block by returning a value.
    pub fn ret(self, value: ValueID)
        ensures
            *final(self.next_id) == *old(self.next_id),
            models(final(self.block)@) == models(old(self.block)@).push(InstModel::Ret(value)),
    {
        self.terminate(Inst::Ret(value))
    }

    /// Ends the block by jumping to another.
    pub fn jmp(self, id: BlockCall)
        ensures
            *final(self.next_id) == *old(self.next_id),
            models(final(self.block)@) == models(old(self.block)@).push(InstModel::Jmp(id@)),
    {
        self.terminate(Inst::Jmp(id))
    }

    /// Ends the block by branching on a condition.
    pub fn br(self, condition: ValueID, true_path: BlockCall, false_path: BlockCall)
        ensures
            *final(self.next_id) == *old(self.next_id),
            models(final(self.block)@) == models(old(self.block)@).push(
                InstModel::Branch {
                    condition,
                    true_path: true_path@,
                    false_path: false_path@,
                },
            ),
    {
        self.terminate(Inst::Branch { condition, true_path, false_path })
    }
}
} // verus!
