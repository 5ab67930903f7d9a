use vstd::prelude::*;
use crate::span::Span;

verus! {

/// A virtual register of the intermediate representation.
pub type VReg = u32;

/// A jump target of the intermediate representation.
#[derive(Debug, Clone, Copy, PartialEq, Eq, Hash, Structural)]
pub struct Label(pub usize);

/// One instruction of the intermediate representation with its source span.
#[derive(Debug)]
pub struct VynIROpCode {
    pub node: VynIROC,
    pub span: Span,
}

/// Instructions of the intermediate representation, over unboundedly many
/// virtual registers. A float constant keeps the digits it was written with.
#[derive(Debug)]
pub enum VynIROC {
    LoadConstInt { dest: VReg, value: i32 },
    LoadConstFloat { dest: VReg, value: String },
    LoadString { dest: VReg, value: String },
    LoadBool { dest: VReg, value: bool },
    AddInt { dest: VReg, left: VReg, right: VReg },
    AddFloat { dest: VReg, left: VReg, right: VReg },
    SubInt { dest: VReg, left: VReg, right: VReg },
    SubFloat { dest: VReg, left: VReg, right: VReg },
    MulInt { dest: VReg, left: VReg, right: VReg },
    MulFloat { dest: VReg, left: VReg, right: VReg },
    DivInt { dest: VReg, left: VReg, right: VReg },
    DivFloat { dest: VReg, left: VReg, right: VReg },
    ExpInt { dest: VReg, left: VReg, right: VReg },
    ExpFloat { dest: VReg, left: VReg, right: VReg },
    CompareEqual { dest: VReg, left: VReg, right: VReg },
    CompareNotEqual { dest: VReg, left: VReg, right: VReg },
    CompareLessInt { dest: VReg, left: VReg, right: VReg },
    CompareLessFloat { dest: VReg, left: VReg, right: VReg },
    CompareLessEqualInt { dest: VReg, left: VReg, right: VReg },
    CompareLessEqualFloat { dest: VReg, left: VReg, right: VReg },
    CompareGreaterInt { dest: VReg, left: VReg, right: VReg },
    CompareGreaterFloat { dest: VReg, left: VReg, right: VReg },
    CompareGreaterEqualInt { dest: VReg, left: VReg, right: VReg },
    CompareGreaterEqualFloat { dest: VReg, left: VReg, right: VReg },
    JumpIfFalse { condition_reg: VReg, label: Label },
    JumpUncond { label: Label },
    Label(Label),
    Move { dest: VReg, src: VReg },
    LogAddr { addr: VReg },
    Halt,
}

/// The virtual register an instruction writes, if any.
pub open spec fn spec_def(inst: VynIROC) -> Option<VReg> {
    match inst {
        VynIROC::LoadConstInt { dest, .. } => Some(dest),
        VynIROC::LoadConstFloat { dest, .. } => Some(dest),
        VynIROC::LoadString { dest, .. } => Some(dest),
        VynIROC::LoadBool { dest, .. } => Some(dest),
        VynIROC::AddInt { dest, .. } => Some(dest),
        VynIROC::AddFloat { dest, .. } => Some(dest),
        VynIROC::SubInt { dest, .. } => Some(dest),
        VynIROC::SubFloat { dest, .. } => Some(dest),
        VynIROC::MulInt { dest, .. } => Some(dest),
        VynIROC::MulFloat { dest, .. } => Some(dest),
        VynIROC::DivInt { dest, .. } => Some(dest),
        VynIROC::DivFloat { dest, .. } => Some(dest),
        VynIROC::ExpInt { dest, .. } => Some(dest),
        VynIROC::ExpFloat { dest, .. } => Some(dest),
        VynIROC::CompareEqual { dest, .. } => Some(dest),
        VynIROC::CompareNotEqual { dest, .. } => Some(dest),
        VynIROC::CompareLessInt { dest, .. } => Some(dest),
        VynIROC::CompareLessFloat { dest, .. } => Some(dest),
        VynIROC::CompareLessEqualInt { dest, .. } => Some(dest),
        VynIROC::CompareLessEqualFloat { dest, .. } => Some(dest),
        VynIROC::CompareGreaterInt { dest, .. } => Some(dest),
        VynIROC::CompareGreaterFloat { dest, .. } => Some(dest),
        VynIROC::CompareGreaterEqualInt { dest, .. } => Some(dest),
        VynIROC::CompareGreaterEqualFloat { dest, .. } => Some(dest),
        VynIROC::JumpIfFalse { .. } => None,
        VynIROC::JumpUncond { .. } => None,
        VynIROC::Label(..) => None,
        VynIROC::Move { dest, .. } => Some(dest),
        VynIROC::LogAddr { .. } => None,
        VynIROC::Halt => None,
    }
}

/// The virtual registers an instruction reads, in operand order.
pub open spec fn spec_uses(inst: VynIROC) -> Seq<VReg> {
    match inst {
        VynIROC::LoadConstInt { .. } => Seq::<VReg>::empty(),
        VynIROC::LoadConstFloat { .. } => Seq::<VReg>::empty(),
        VynIROC::LoadString { .. } => Seq::<VReg>::empty(),
        VynIROC::LoadBool { .. } => Seq::<VReg>::empty(),
        VynIROC::AddInt { left, right, .. } => seq![left, right],
        VynIROC::AddFloat { left, right, .. } => seq![left, right],
        VynIROC::SubInt { left, right, .. } => seq![left, right],
        VynIROC::SubFloat { left, right, .. } => seq![left, right],
        VynIROC::MulInt { left, right, .. } => seq![left, right],
        VynIROC::MulFloat { left, right, .. } => seq![left, right],
        VynIROC::DivInt { left, right, .. } => seq![left, right],
        VynIROC::DivFloat { left, right, .. } => seq![left, right],
        VynIROC::ExpInt { left, right, .. } => seq![left, right],
        VynIROC::ExpFloat { left, right, .. } => seq![left, right],
        VynIROC::CompareEqual { left, right, .. } => seq![left, right],
        VynIROC::CompareNotEqual { left, right, .. } => seq![left, right],
        VynIROC::CompareLessInt { left, right, .. } => seq![left, right],
        VynIROC::CompareLessFloat { left, right, .. } => seq![left, right],
        VynIROC::CompareLessEqualInt { left, right, .. } => seq![left, right],
        VynIROC::CompareLessEqualFloat { left, right, .. } => seq![left, right],
        VynIROC::CompareGreaterInt { left, right, .. } => seq![left, right],
        VynIROC::CompareGreaterFloat { left, right, .. } => seq![left, right],
        VynIROC::CompareGreaterEqualInt { left, right, .. } => seq![left, right],
        VynIROC::CompareGreaterEqualFloat { left, right, .. } => seq![left, right],
        VynIROC::JumpIfFalse { condition_reg, .. } => seq![condition_reg],
        VynIROC::JumpUncond { .. } => Seq::<VReg>::empty(),
        VynIROC::Label(..) => Seq::<VReg>::empty(),
        VynIROC::Move { src, .. } => seq![src],
        VynIROC::LogAddr { addr, .. } => seq![addr],
        VynIROC::Halt => Seq::<VReg>::empty(),
    }
}

impl VynIROC {
    /// Attaches a source location.
    pub fn spanned(self, span: Span) -> (o: VynIROpCode)
        ensures
            o.node == self,
            o.span == span,
    {
        VynIROpCode { node: self, span }
    }

    /// The virtual register this instruction writes, if any.
    pub fn get_def(&self) -> (d: Option<VReg>)
        ensures
            d == spec_def(*self),
    {
        match self {
            VynIROC::LoadConstInt { dest, .. } => Some(*dest),
            VynIROC::LoadConstFloat { dest, .. } => Some(*dest),
            VynIROC::LoadString { dest, .. } => Some(*dest),
            VynIROC::LoadBool { dest, .. } => Some(*dest),
            VynIROC::AddInt { dest, .. } => Some(*dest),
            VynIROC::AddFloat { dest, .. } => Some(*dest),
            VynIROC::SubInt { dest, .. } => Some(*dest),
            VynIROC::SubFloat { dest, .. } => Some(*dest),
            VynIROC::MulInt { dest, .. } => Some(*dest),
            VynIROC::MulFloat { dest, .. } => Some(*dest),
            VynIROC::DivInt { dest, .. } => Some(*dest),
            VynIROC::DivFloat { dest, .. } => Some(*dest),
            VynIROC::ExpInt { dest, .. } => Some(*dest),
            VynIROC::ExpFloat { dest, .. } => Some(*dest),
            VynIROC::CompareEqual { dest, .. } => Some(*dest),
            VynIROC::CompareNotEqual { dest, .. } => Some(*dest),
            VynIROC::CompareLessInt { dest, .. } => Some(*dest),
            VynIROC::CompareLessFloat { dest, .. } => Some(*dest),
            VynIROC::CompareLessEqualInt { dest, .. } => Some(*dest),
            VynIROC::CompareLessEqualFloat { dest, .. } => Some(*dest),
            VynIROC::CompareGreaterInt { dest, .. } => Some(*dest),
            VynIROC::CompareGreaterFloat { dest, .. } => Some(*dest),
            VynIROC::CompareGreaterEqualInt { dest, .. } => Some(*dest),
            VynIROC::CompareGreaterEqualFloat { dest, .. } => Some(*dest),
            VynIROC::JumpIfFalse { .. } => None,
            VynIROC::JumpUncond { .. } => None,
            VynIROC::Label(..) => None,
            VynIROC::Move { dest, .. } => Some(*dest),
            VynIROC::LogAddr { .. } => None,
            VynIROC::Halt => None,
        }
    }

    /// The virtual registers this instruction reads.
    pub fn get_uses(&self) -> (u: Vec<VReg>)
        ensures
            u@ == spec_uses(*self),
    {
        match self {
            VynIROC::LoadConstInt { .. } => Vec::new(),
            VynIROC::LoadConstFloat { .. } => Vec::new(),
            VynIROC::LoadString { .. } => Vec::new(),
            VynIROC::LoadBool { .. } => Vec::new(),
            VynIROC::AddInt { left, right, .. } => vec![*left, *right],
            VynIROC::AddFloat { left, right, .. } => vec![*left, *right],
            VynIROC::SubInt { left, right, .. } => vec![*left, *right],
            VynIROC::SubFloat { left, right, .. } => vec![*left, *right],
            VynIROC::MulInt { left, right, .. } => vec![*left, *right],
            VynIROC::MulFloat { left, right, .. } => vec![*left, *right],
            VynIROC::DivInt { left, right, .. } => vec![*left, *right],
            VynIROC::DivFloat { left, right, .. } => vec![*left, *right],
            VynIROC::ExpInt { left, right, .. } => vec![*left, *right],
            VynIROC::ExpFloat { left, right, .. } => vec![*left, *right],
            VynIROC::CompareEqual { left, right, .. } => vec![*left, *right],
            VynIROC::CompareNotEqual { left, right, .. } => vec![*left, *right],
            VynIROC::CompareLessInt { left, right, .. } => vec![*left, *right],
            VynIROC::CompareLessFloat { left, right, .. } => vec![*left, *right],
            VynIROC::CompareLessEqualInt { left, right, .. } => vec![*left, *right],
            VynIROC::CompareLessEqualFloat { left, right, .. } => vec![*left, *right],
            VynIROC::CompareGreaterInt { left, right, .. } => vec![*left, *right],
            VynIROC::CompareGreaterFloat { left, right, .. } => vec![*left, *right],
            VynIROC::CompareGreaterEqualInt { left, right, .. } => vec![*left, *right],
            VynIROC::CompareGreaterEqualFloat { left, right, .. } => vec![*left, *right],
            VynIROC::JumpIfFalse { condition_reg, .. } => vec![*condition_reg],
            VynIROC::JumpUncond { .. } => Vec::new(),
            VynIROC::Label(..) => Vec::new(),
            VynIROC::Move { src, .. } => vec![*src],
            VynIROC::LogAddr { addr, .. } => vec![*addr],
            VynIROC::Halt => Vec::new(),
        }
    }
}

} // verus!
