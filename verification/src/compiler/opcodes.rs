//! Opcodes of the target machine and the shapes an instruction takes in an
//! instruction stream.

use crate::tokens::FlagType;
use vstd::prelude::*;

verus! {

/// A branch target that has not been given a position yet.
pub type Label = i32;

/// The opcodes that the generator emits.
#[allow(non_camel_case_types)]
#[derive(Clone, Copy, Debug, PartialEq, Eq, Structural)]
pub enum OpName {
    MOVE,
    LOADK,
    LOADBOOL,
    LOADNIL,
    GETUPVAL,
    GETGLOBAL,
    SETGLOBAL,
    ADD,
    SUB,
    MUL,
    DIV,
    EQ,
    LT,
    LE,
    TEST,
    JMP,
    CALL,
    CLOSURE,
    RETURN,
}

/// One entry of an instruction stream: an instruction in one of the three
/// encodings, or a marker that gives a label its position.
///
/// Until labels are resolved, the last operand of a `JMP` is the label it
/// jumps to; afterwards it is the displacement from the instruction that
/// follows the `JMP`.
#[allow(non_camel_case_types)]
#[derive(Clone, Copy, Debug, PartialEq, Eq, Structural)]
pub enum OpMode {
    iABC(OpName, u32, u32, u32),
    iABx(OpName, u32, u32),
    iAsBx(OpName, u32, i32),
    Label(Label),
}

/// The arithmetic opcode that a binary-operator token stands for.
pub open spec fn arith_opcode(flag: FlagType) -> Option<OpName> {
    match flag {
        FlagType::Plus => Some(OpName::ADD),
        FlagType::Minus => Some(OpName::SUB),
        FlagType::Mul => Some(OpName::MUL),
        FlagType::Div => Some(OpName::DIV),
        _ => None,
    }
}

/// The comparison opcode of a relational token, and the polarity with which
/// the comparison holds when the opcode's test succeeds: `>` and `>=` are the
/// negations of `<=` and `<`, `~=` that of `==`.
pub open spec fn relational_opcode(flag: FlagType) -> Option<(OpName, bool)> {
    match flag {
        FlagType::LESS => Some((OpName::LT, true)),
        FlagType::LEQ => Some((OpName::LE, true)),
        FlagType::GREATER => Some((OpName::LE, false)),
        FlagType::GEQ => Some((OpName::LT, false)),
        FlagType::EQ => Some((OpName::EQ, true)),
        FlagType::NEQ => Some((OpName::EQ, false)),
        _ => None,
    }
}

/// Computes [`arith_opcode`].
pub fn flag_to_op(flag: FlagType) -> (r: Option<OpName>)
    ensures
        r == arith_opcode(flag),
{
    match flag {
        FlagType::Plus => Some(OpName::ADD),
        FlagType::Minus => Some(OpName::SUB),
        FlagType::Mul => Some(OpName::MUL),
        FlagType::Div => Some(OpName::DIV),
        _ => None,
    }
}

/// Computes [`relational_opcode`].
pub fn flag_to_test(flag: FlagType) -> (r: Option<(OpName, bool)>)
    ensures
        r == relational_opcode(flag),
{
    match flag {
        FlagType::LESS => Some((OpName::LT, true)),
        FlagType::LEQ => Some((OpName::LE, true)),
        FlagType::GREATER => Some((OpName::LE, false)),
        FlagType::GEQ => Some((OpName::LT, false)),
        FlagType::EQ => Some((OpName::EQ, true)),
        FlagType::NEQ => Some((OpName::EQ, false)),
        _ => None,
    }
}

impl OpMode {
    /// Whether the entry is a label marker rather than an instruction.
    pub open spec fn is_marker(self) -> bool {
        self is Label
    }
}

} // verus!
