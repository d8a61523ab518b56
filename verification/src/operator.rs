//! The operators of the language, their arity, their binding strength and
//! their spelling.

use vstd::prelude::*;

verus! {

/// An operator of the language. `Sub` is the binary minus and `Neg` the
/// prefix minus; both are spelled `-`.
#[derive(Clone, Copy, Debug, PartialEq, Eq, Structural)]
pub enum Operator {
    Or,
    And,
    Eq,
    Neq,
    Le,
    Ge,
    Lt,
    Gt,
    Concat,
    Add,
    Sub,
    Mul,
    Div,
    Mod,
    Not,
    Len,
    Neg,
    Pow,
}

/// The side on which a chain of operators of one level groups.
#[derive(Clone, Copy, Debug, PartialEq, Eq, Structural)]
pub enum Associativity {
    Left,
    Right,
}

/// The binding strength of an operator: a higher level binds tighter.
#[derive(Clone, Copy, Debug, PartialEq, Eq, Structural)]
pub struct Precedence {
    pub level: u8,
    pub assoc: Associativity,
}

impl Operator {
    /// Whether the operator takes one operand: `not`, `#` and prefix `-`.
    pub open spec fn spec_is_unary(self) -> bool {
        self == Operator::Not || self == Operator::Len || self == Operator::Neg
    }

    /// The level of the operator, from 1 (`or`, the loosest) to 8 (`^`, the
    /// tightest).
    pub open spec fn spec_precedence(self) -> u8 {
        match self {
            Operator::Or => 1,
            Operator::And => 2,
            Operator::Eq | Operator::Neq | Operator::Le | Operator::Ge | Operator::Lt
            | Operator::Gt => 3,
            Operator::Concat => 4,
            Operator::Add | Operator::Sub => 5,
            Operator::Mul | Operator::Div | Operator::Mod => 6,
            Operator::Not | Operator::Len | Operator::Neg => 7,
            Operator::Pow => 8,
        }
    }

    /// `..` and `^` group to the right, every other operator to the left.
    pub open spec fn spec_associativity(self) -> Associativity {
        if self == Operator::Concat || self == Operator::Pow {
            Associativity::Right
        } else {
            Associativity::Left
        }
    }

    /// The spelling of the operator in source text.
    pub open spec fn spec_symbol(self) -> Seq<char> {
        match self {
            Operator::Or => "or"@,
            Operator::And => "and"@,
            Operator::Eq => "=="@,
            Operator::Neq => "~="@,
            Operator::Le => "<="@,
            Operator::Ge => ">="@,
            Operator::Lt => "<"@,
            Operator::Gt => ">"@,
            Operator::Concat => ".."@,
            Operator::Add => "+"@,
            Operator::Sub => "-"@,
            Operator::Mul => "*"@,
            Operator::Div => "/"@,
            Operator::Mod => "%"@,
            Operator::Not => "not"@,
            Operator::Len => "#"@,
            Operator::Neg => "-"@,
            Operator::Pow => "^"@,
        }
    }

    pub fn is_unary(&self) -> (unary: bool)
        ensures
            unary == self.spec_is_unary(),
    {
        match self {
            Operator::Not | Operator::Len | Operator::Neg => true,
            _ => false,
        }
    }

    pub fn precedence(&self) -> (level: u8)
        ensures
            level == self.spec_precedence(),
    {
        match self {
            Operator::Or => 1,
            Operator::And => 2,
            Operator::Eq | Operator::Neq | Operator::Le | Operator::Ge | Operator::Lt
            | Operator::Gt => 3,
            Operator::Concat => 4,
            Operator::Add | Operator::Sub => 5,
            Operator::Mul | Operator::Div | Operator::Mod => 6,
            Operator::Not | Operator::Len | Operator::Neg => 7,
            Operator::Pow => 8,
        }
    }

    pub fn associativity(&self) -> (assoc: Associativity)
        ensures
            assoc == self.spec_associativity(),
    {
        match self {
            Operator::Concat | Operator::Pow => Associativity::Right,
            _ => Associativity::Left,
        }
    }

    /// Level and associativity together.
    pub fn precedence_class(&self) -> (class: Precedence)
        ensures
            class.level == self.spec_precedence(),
            class.assoc == self.spec_associativity(),
    {
        Precedence { level: self.precedence(), assoc: self.associativity() }
    }

    pub fn to_symbol(&self) -> (symbol: &'static str)
        ensures
            symbol@ == self.spec_symbol(),
    {
        match self {
            Operator::Or => "or",
            Operator::And => "and",
            Operator::Eq => "==",
            Operator::Neq => "~=",
            Operator::Le => "<=",
            Operator::Ge => ">=",
            Operator::Lt => "<",
            Operator::Gt => ">",
            Operator::Concat => "..",
            Operator::Add => "+",
            Operator::Sub => "-",
            Operator::Mul => "*",
            Operator::Div => "/",
            Operator::Mod => "%",
            Operator::Not => "not",
            Operator::Len => "#",
            Operator::Neg => "-",
            Operator::Pow => "^",
        }
    }
}

} // verus!
