use vstd::prelude::*;
use crate::arith::ArithOp;
use crate::error::VmError;

verus! {

/// One instruction of a program. An operand is an index into a name table or the
/// constant pool, a comparison code, an argument count, or a jump target counted in
/// half-instructions.
#[derive(Clone, Copy, Debug, PartialEq, Eq, Structural)]
pub enum Instruction {
    LoadConst(usize),
    StoreName(usize),
    LoadName(usize),
    DeleteName(usize),
    StoreFast(usize),
    LoadFast(usize),
    DeleteFast(usize),
    StoreGlobal(usize),
    LoadGlobal(usize),
    DeleteGlobal(usize),
    CompareOp(usize),
    JumpForward(usize),
    PopJumpIfTrue(usize),
    PopJumpIfFalse(usize),
    JumpIfTrueOrPop(usize),
    JumpIfFalseOrPop(usize),
    MakeFunction(usize),
    CallFunction(usize),
    JumpAbsolute(usize),
    ReturnValue,
    InplaceAdd,
    InplaceSubtract,
    InplaceMultiply,
    InplaceTrueDivide,
    InplaceFloorDivide,
    BinaryAdd,
    BinarySubtract,
    BinaryMultiply,
    BinaryTrueDivide,
    BinaryFloorDivide,
    Nop,
    PopTop,
    RotTwo,
    RotThree,
    RotFour,
    DupTop,
    DupTopTwo,
    UnaryPositive,
    UnaryNegative,
    Print,
}

impl Instruction {
    /// The arithmetic operator that the instruction applies to the top two values of
    /// the stack, if it applies one. Floor division divides.
    pub open spec fn operator(self) -> Option<ArithOp> {
        match self {
            Instruction::InplaceAdd | Instruction::BinaryAdd => Some(ArithOp::Add),
            Instruction::InplaceSubtract | Instruction::BinarySubtract => Some(ArithOp::Sub),
            Instruction::InplaceMultiply | Instruction::BinaryMultiply => Some(ArithOp::Mul),
            Instruction::InplaceTrueDivide | Instruction::BinaryTrueDivide => Some(ArithOp::Div),
            Instruction::InplaceFloorDivide | Instruction::BinaryFloorDivide => Some(ArithOp::Div),
            _ => None,
        }
    }

    /// Whether the instruction is a floor division, which truncates its quotient.
    pub open spec fn truncates(self) -> bool {
        self is InplaceFloorDivide || self is BinaryFloorDivide
    }

    /// The arithmetic operator that the instruction applies, if it applies one.
    pub fn operator_of(&self) -> (r: Option<ArithOp>)
        ensures
            r == self.operator(),
    {
        match self {
            Instruction::InplaceAdd | Instruction::BinaryAdd => Some(ArithOp::Add),
            Instruction::InplaceSubtract | Instruction::BinarySubtract => Some(ArithOp::Sub),
            Instruction::InplaceMultiply | Instruction::BinaryMultiply => Some(ArithOp::Mul),
            Instruction::InplaceTrueDivide | Instruction::BinaryTrueDivide => Some(ArithOp::Div),
            Instruction::InplaceFloorDivide | Instruction::BinaryFloorDivide => Some(ArithOp::Div),
            _ => None,
        }
    }

    /// Whether the instruction is a floor division.
    pub fn is_floor_division(&self) -> (r: bool)
        ensures
            r == self.truncates(),
    {
        matches!(self, Instruction::InplaceFloorDivide | Instruction::BinaryFloorDivide)
    }
}

/// The six comparisons that a `CompareOp` instruction can ask for.
#[derive(Clone, Copy, Debug, PartialEq, Eq, Structural)]
pub enum CompareOps {
    LessThan,
    LessThanOrEqual,
    Equal,
    NotEqual,
    GreaterThan,
    GreaterThanOrEqual,
}

impl CompareOps {
    /// The comparison that operand `code` stands for, if it stands for one.
    pub open spec fn decode(code: usize) -> Result<CompareOps, VmError> {
        if code == 0 {
            Ok(CompareOps::LessThan)
        } else if code == 1 {
            Ok(CompareOps::LessThanOrEqual)
        } else if code == 2 {
            Ok(CompareOps::Equal)
        } else if code == 3 {
            Ok(CompareOps::NotEqual)
        } else if code == 4 {
            Ok(CompareOps::GreaterThan)
        } else if code == 5 {
            Ok(CompareOps::GreaterThanOrEqual)
        } else {
            Err(VmError::InvalidOperand)
        }
    }

    /// Decodes the operand of a `CompareOp` instruction: codes 0 to 5 name the six
    /// comparisons in declaration order, every other code is rejected.
    pub fn from(code: usize) -> (r: Result<CompareOps, VmError>)
        ensures
            r == Self::decode(code),
    {
        match code {
            0 => Ok(CompareOps::LessThan),
            1 => Ok(CompareOps::LessThanOrEqual),
            2 => Ok(CompareOps::Equal),
            3 => Ok(CompareOps::NotEqual),
            4 => Ok(CompareOps::GreaterThan),
            5 => Ok(CompareOps::GreaterThanOrEqual),
            _ => Err(VmError::InvalidOperand),
        }
    }
}

} // verus!
