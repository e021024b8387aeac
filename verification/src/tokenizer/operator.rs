//! The closed set of operators, their precedence ranks, and their rendering
//! in the generated output.
use vstd::prelude::*;
use vstd::string::StringExecFns;

verus! {

/// An operator token. The `bool` payload records whether the operator was
/// immediately followed by `=` in the source (its compound-assignment form).
#[derive(Debug, Clone, Copy, PartialEq, Eq, Structural)]
pub enum Operator {
    Add(bool),
    Sub(bool),
    Star(bool),
    Slash(bool),
    Pow(bool),
    Gt(bool),
    Lt(bool),
    Eq(bool),
    Bang(bool),
    Mod(bool),
    And(bool),
    Or(bool),
    BitAnd(bool),
    BitOr(bool),
    Xor(bool),
    BitLeft(bool),
    BitRight(bool),
    Arrow,
    Increment,
    Decrement,
}

/// The fixed precedence rank of an operator: numerically smaller binds
/// tighter. The generator compares ranks to decide parenthesization.
pub open spec fn spec_precedence(op: Operator) -> u8 {
    match op {
        Operator::Increment | Operator::Decrement | Operator::Bang(false) => 0,
        Operator::Pow(false) => 1,
        Operator::Star(false) | Operator::Slash(false) | Operator::Mod(false) => 2,
        Operator::Add(false) | Operator::Sub(false) => 3,
        Operator::BitLeft(false) | Operator::BitRight(false) => 4,
        Operator::BitAnd(false) => 5,
        Operator::BitOr(false) => 6,
        Operator::Xor(false) => 7,
        Operator::Eq(true) | Operator::Bang(true) | Operator::Lt(_) | Operator::Gt(_) => 8,
        Operator::And(false) => 9,
        Operator::Or(false) => 10,
        Operator::Arrow => 11,
        Operator::Add(true)
        | Operator::Sub(true)
        | Operator::Star(true)
        | Operator::Slash(true)
        | Operator::Pow(true)
        | Operator::Eq(false)
        | Operator::Mod(true)
        | Operator::And(true)
        | Operator::Or(true)
        | Operator::BitAnd(true)
        | Operator::BitOr(true)
        | Operator::Xor(true)
        | Operator::BitRight(true)
        | Operator::BitLeft(true) => 12,
    }
}

/// Whether the operator carries the compound-assignment flag.
pub open spec fn spec_has_eq(op: Operator) -> bool {
    match op {
        Operator::Arrow | Operator::Increment | Operator::Decrement => false,
        Operator::Add(f)
        | Operator::Sub(f)
        | Operator::Star(f)
        | Operator::Slash(f)
        | Operator::Pow(f)
        | Operator::Gt(f)
        | Operator::Lt(f)
        | Operator::Eq(f)
        | Operator::Bang(f)
        | Operator::Mod(f)
        | Operator::And(f)
        | Operator::Or(f)
        | Operator::BitAnd(f)
        | Operator::BitOr(f)
        | Operator::Xor(f)
        | Operator::BitLeft(f)
        | Operator::BitRight(f) => f,
    }
}

/// The text an operator is rendered as in the generated output: its base
/// spelling followed by `=` when the compound-assignment flag is set.
pub open spec fn spec_operator_text(op: Operator) -> Seq<char> {
    let base = match op {
        Operator::Add(_) => "+"@,
        Operator::Sub(_) => "-"@,
        Operator::Star(_) => "*"@,
        Operator::Slash(_) => "/"@,
        Operator::Pow(_) => "**"@,
        Operator::Gt(_) => ">"@,
        Operator::Lt(_) => "<"@,
        Operator::Eq(_) => "="@,
        Operator::Bang(_) => "!"@,
        Operator::Mod(_) => "%"@,
        Operator::And(_) => "&&"@,
        Operator::Or(_) => "||"@,
        Operator::BitAnd(_) => "&"@,
        Operator::BitOr(_) => "|"@,
        Operator::Xor(_) => "^"@,
        Operator::BitLeft(_) => "<<"@,
        Operator::BitRight(_) => ">>"@,
        Operator::Arrow => "->"@,
        Operator::Increment => "++"@,
        Operator::Decrement => "--"@,
    };
    if spec_has_eq(op) {
        base + "="@
    } else {
        base
    }
}

impl Operator {
    pub fn precedence(&self) -> (r: u8)
        ensures
            r == spec_precedence(*self),
    {
        match self {
            Operator::Increment | Operator::Decrement | Operator::Bang(false) => 0,
            Operator::Pow(false) => 1,
            Operator::Star(false) | Operator::Slash(false) | Operator::Mod(false) => 2,
            Operator::Add(false) | Operator::Sub(false) => 3,
            Operator::BitLeft(false) | Operator::BitRight(false) => 4,
            Operator::BitAnd(false) => 5,
            Operator::BitOr(false) => 6,
            Operator::Xor(false) => 7,
            Operator::Eq(true) | Operator::Bang(true) | Operator::Lt(_) | Operator::Gt(_) => 8,
            Operator::And(false) => 9,
            Operator::Or(false) => 10,
            Operator::Arrow => 11,
            Operator::Add(true)
            | Operator::Sub(true)
            | Operator::Star(true)
            | Operator::Slash(true)
            | Operator::Pow(true)
            | Operator::Eq(false)
            | Operator::Mod(true)
            | Operator::And(true)
            | Operator::Or(true)
            | Operator::BitAnd(true)
            | Operator::BitOr(true)
            | Operator::Xor(true)
            | Operator::BitRight(true)
            | Operator::BitLeft(true) => 12,
        }
    }

    pub fn has_eq(&self) -> (r: bool)
        ensures
            r == spec_has_eq(*self),
    {
        match self {
            Operator::Arrow | Operator::Increment | Operator::Decrement => false,
            Operator::Add(f)
            | Operator::Sub(f)
            | Operator::Star(f)
            | Operator::Slash(f)
            | Operator::Pow(f)
            | Operator::Gt(f)
            | Operator::Lt(f)
            | Operator::Eq(f)
            | Operator::Bang(f)
            | Operator::Mod(f)
            | Operator::And(f)
            | Operator::Or(f)
            | Operator::BitAnd(f)
            | Operator::BitOr(f)
            | Operator::Xor(f)
            | Operator::BitLeft(f)
            | Operator::BitRight(f) => *f,
        }
    }

    /// The operator's source rendering used by the code generator.
    pub fn text(&self) -> (r: String)
        ensures
            r@ == spec_operator_text(*self),
    {
        let base: &str = match self {
            Operator::Add(_) => "+",
            Operator::Sub(_) => "-",
            Operator::Star(_) => "*",
            Operator::Slash(_) => "/",
            Operator::Pow(_) => "**",
            Operator::Gt(_) => ">",
            Operator::Lt(_) => "<",
            Operator::Eq(_) => "=",
            Operator::Bang(_) => "!",
            Operator::Mod(_) => "%",
            Operator::And(_) => "&&",
            Operator::Or(_) => "||",
            Operator::BitAnd(_) => "&",
            Operator::BitOr(_) => "|",
            Operator::Xor(_) => "^",
            Operator::BitLeft(_) => "<<",
            Operator::BitRight(_) => ">>",
            Operator::Arrow => "->",
            Operator::Increment => "++",
            Operator::Decrement => "--",
        };
        let mut out = base.to_owned();
        if self.has_eq() {
            out.append("=");
        }
        out
    }
}

} // verus!
