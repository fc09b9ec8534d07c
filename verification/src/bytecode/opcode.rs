//! The instruction set of the virtual machine.

use vstd::prelude::*;

verus! {

/// One instruction; its operands follow it in the code array.
#[derive(Debug, Clone, Copy, PartialEq, Eq)]
pub enum Opcode {
    ConstNull,
    ConstTrue,
    ConstFalse,
    ConstIZero,
    ConstIOne,
    ConstFZero,
    ConstFOne,
    BiPush,
    SiPush,
    Ldc,
    Load,
    Store,
    IInc,
    Pop,
    Dup,
    Swap,
    IAdd,
    ISub,
    IMul,
    IDiv,
    IMod,
    INeg,
    FAdd,
    FSub,
    FMul,
    FDiv,
    FMod,
    FNeg,
    I2F,
    F2I,
    I2B,
    B2I,
    ToString,
    StrConcat,
    CmpEq,
    CmpNe,
    CmpLt,
    CmpGt,
    CmpLe,
    CmpGe,
    CmpThreeWay,
    Not,
    IsNull,
    IsNonNull,
    Goto,
    IfTrue,
    IfFalse,
    New,
    GetField,
    SetField,
    InstanceOf,
    CheckCast,
    NewArray,
    NewArrayInit,
    ArrayLoad,
    ArrayStore,
    ArrayLength,
    InvokeStatic,
    InvokeInstance,
    InvokeSpecial,
    InvokeClosure,
    Return,
    ReturnValue,
    Throw,
    GetStatic,
    SetStatic,
}

impl Opcode {
    /// The byte that stands for this instruction in a code array.
    pub open spec fn code(self) -> u8 {
        match self {
            Opcode::ConstNull => 1,
            Opcode::ConstTrue => 2,
            Opcode::ConstFalse => 3,
            Opcode::ConstIZero => 4,
            Opcode::ConstIOne => 5,
            Opcode::ConstFZero => 6,
            Opcode::ConstFOne => 7,
            Opcode::BiPush => 8,
            Opcode::SiPush => 9,
            Opcode::Ldc => 10,
            Opcode::Load => 11,
            Opcode::Store => 12,
            Opcode::IInc => 13,
            Opcode::Pop => 14,
            Opcode::Dup => 15,
            Opcode::Swap => 16,
            Opcode::IAdd => 17,
            Opcode::ISub => 18,
            Opcode::IMul => 19,
            Opcode::IDiv => 20,
            Opcode::IMod => 21,
            Opcode::INeg => 22,
            Opcode::FAdd => 23,
            Opcode::FSub => 24,
            Opcode::FMul => 25,
            Opcode::FDiv => 26,
            Opcode::FMod => 27,
            Opcode::FNeg => 28,
            Opcode::I2F => 29,
            Opcode::F2I => 30,
            Opcode::I2B => 31,
            Opcode::B2I => 32,
            Opcode::ToString => 33,
            Opcode::StrConcat => 34,
            Opcode::CmpEq => 35,
            Opcode::CmpNe => 36,
            Opcode::CmpLt => 37,
            Opcode::CmpGt => 38,
            Opcode::CmpLe => 39,
            Opcode::CmpGe => 40,
            Opcode::CmpThreeWay => 41,
            Opcode::Not => 42,
            Opcode::IsNull => 43,
            Opcode::IsNonNull => 44,
            Opcode::Goto => 45,
            Opcode::IfTrue => 46,
            Opcode::IfFalse => 47,
            Opcode::New => 48,
            Opcode::GetField => 49,
            Opcode::SetField => 50,
            Opcode::InstanceOf => 51,
            Opcode::CheckCast => 52,
            Opcode::NewArray => 53,
            Opcode::NewArrayInit => 54,
            Opcode::ArrayLoad => 55,
            Opcode::ArrayStore => 56,
            Opcode::ArrayLength => 57,
            Opcode::InvokeStatic => 58,
            Opcode::InvokeInstance => 59,
            Opcode::InvokeSpecial => 60,
            Opcode::InvokeClosure => 61,
            Opcode::Return => 62,
            Opcode::ReturnValue => 63,
            Opcode::Throw => 64,
            Opcode::GetStatic => 65,
            Opcode::SetStatic => 66,
        }
    }

    pub fn byte(self) -> (r: u8)
        ensures
            r == self.code(),
    {
        match self {
            Opcode::ConstNull => 1,
            Opcode::ConstTrue => 2,
            Opcode::ConstFalse => 3,
            Opcode::ConstIZero => 4,
            Opcode::ConstIOne => 5,
            Opcode::ConstFZero => 6,
            Opcode::ConstFOne => 7,
            Opcode::BiPush => 8,
            Opcode::SiPush => 9,
            Opcode::Ldc => 10,
            Opcode::Load => 11,
            Opcode::Store => 12,
            Opcode::IInc => 13,
            Opcode::Pop => 14,
            Opcode::Dup => 15,
            Opcode::Swap => 16,
            Opcode::IAdd => 17,
            Opcode::ISub => 18,
            Opcode::IMul => 19,
            Opcode::IDiv => 20,
            Opcode::IMod => 21,
            Opcode::INeg => 22,
            Opcode::FAdd => 23,
            Opcode::FSub => 24,
            Opcode::FMul => 25,
            Opcode::FDiv => 26,
            Opcode::FMod => 27,
            Opcode::FNeg => 28,
            Opcode::I2F => 29,
            Opcode::F2I => 30,
            Opcode::I2B => 31,
            Opcode::B2I => 32,
            Opcode::ToString => 33,
            Opcode::StrConcat => 34,
            Opcode::CmpEq => 35,
            Opcode::CmpNe => 36,
            Opcode::CmpLt => 37,
            Opcode::CmpGt => 38,
            Opcode::CmpLe => 39,
            Opcode::CmpGe => 40,
            Opcode::CmpThreeWay => 41,
            Opcode::Not => 42,
            Opcode::IsNull => 43,
            Opcode::IsNonNull => 44,
            Opcode::Goto => 45,
            Opcode::IfTrue => 46,
            Opcode::IfFalse => 47,
            Opcode::New => 48,
            Opcode::GetField => 49,
            Opcode::SetField => 50,
            Opcode::InstanceOf => 51,
            Opcode::CheckCast => 52,
            Opcode::NewArray => 53,
            Opcode::NewArrayInit => 54,
            Opcode::ArrayLoad => 55,
            Opcode::ArrayStore => 56,
            Opcode::ArrayLength => 57,
            Opcode::InvokeStatic => 58,
            Opcode::InvokeInstance => 59,
            Opcode::InvokeSpecial => 60,
            Opcode::InvokeClosure => 61,
            Opcode::Return => 62,
            Opcode::ReturnValue => 63,
            Opcode::Throw => 64,
            Opcode::GetStatic => 65,
            Opcode::SetStatic => 66,
        }
    }
}

/// No two instructions share a byte.
pub proof fn opcode_bytes_distinct(a: Opcode, b: Opcode)
    requires
        a.code() == b.code(),
    ensures
        a == b,
{
}

} // verus!
