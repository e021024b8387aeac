//! Code generation: the checked tree is walked a second time and rendered
//! as statement-oriented target text. Types are erased; expression-oriented
//! constructs are desugared into statement sequences.
pub mod content;
pub mod numbers;

use vstd::prelude::*;

verus! {

/// What a desugared conditional branch must do with its terminal value:
/// assign it to a named binding, return it, or nothing.
pub enum TranspileCondition {
    Assign(String),
    Return,
    Bare,
}

/// The mathematical value of a branch obligation.
pub enum TranspileConditionV {
    Assign(Seq<char>),
    Return,
    Bare,
}

impl View for TranspileCondition {
    type V = TranspileConditionV;

    open spec fn view(&self) -> TranspileConditionV {
        match self {
            TranspileCondition::Assign(s) => TranspileConditionV::Assign(s@),
            TranspileCondition::Return => TranspileConditionV::Return,
            TranspileCondition::Bare => TranspileConditionV::Bare,
        }
    }
}

/// The text a branch obligation prefixes its terminal expression with.
pub open spec fn cond_text(cv: TranspileConditionV) -> Seq<char> {
    match cv {
        TranspileConditionV::Assign(s) => s + " ="@,
        TranspileConditionV::Return => "return"@,
        TranspileConditionV::Bare => Seq::empty(),
    }
}

} // verus!
