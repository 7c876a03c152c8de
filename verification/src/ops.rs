//! Unary and binary operators of the surface language.

use vstd::prelude::*;

verus! {

#[derive(Debug, Clone, Copy, PartialEq, Eq, Structural)]
pub enum BinOp {
    Add,
    Sub,
    Mul,
    Div,
    Rem,
    Eq,
    Ne,
    Lt,
    Le,
    Gt,
    Ge,
    And,
    Or,
    BitAnd,
    BitOr,
    BitXor,
    Shl,
    Shr,
}

#[derive(Debug, Clone, Copy, PartialEq, Eq, Structural)]
pub enum UnOp {
    Neg,
    Not,
}

impl BinOp {
    /// The operator as written in source.
    pub open spec fn spec_symbol(self) -> Seq<char> {
        match self {
            BinOp::Add => "+"@,
            BinOp::Sub => "-"@,
            BinOp::Mul => "*"@,
            BinOp::Div => "/"@,
            BinOp::Rem => "%"@,
            BinOp::Eq => "=="@,
            BinOp::Ne => "!="@,
            BinOp::Lt => "<"@,
            BinOp::Le => "<="@,
            BinOp::Gt => ">"@,
            BinOp::Ge => ">="@,
            BinOp::And => "&&"@,
            BinOp::Or => "||"@,
            BinOp::BitAnd => "&"@,
            BinOp::BitOr => "|"@,
            BinOp::BitXor => "^"@,
            BinOp::Shl => "<<"@,
            BinOp::Shr => ">>"@,
        }
    }

    pub fn symbol(&self) -> (s: &'static str)
        ensures
            s@ == self.spec_symbol(),
    {
        match self {
            BinOp::Add => "+",
            BinOp::Sub => "-",
            BinOp::Mul => "*",
            BinOp::Div => "/",
            BinOp::Rem => "%",
            BinOp::Eq => "==",
            BinOp::Ne => "!=",
            BinOp::Lt => "<",
            BinOp::Le => "<=",
            BinOp::Gt => ">",
            BinOp::Ge => ">=",
            BinOp::And => "&&",
            BinOp::Or => "||",
            BinOp::BitAnd => "&",
            BinOp::BitOr => "|",
            BinOp::BitXor => "^",
            BinOp::Shl => "<<",
            BinOp::Shr => ">>",
        }
    }

    /// Whether a comparison operator holds of the values `a` and `b`: `==`
    /// of equal values, `!=` of different ones, `<`, `<=`, `>`, `>=` by
    /// their order. No other operator holds of anything.
    pub open spec fn compares(self, a: int, b: int) -> bool {
        match self {
            BinOp::Eq => a == b,
            BinOp::Ne => a != b,
            BinOp::Lt => a < b,
            BinOp::Le => a <= b,
            BinOp::Gt => a > b,
            BinOp::Ge => a >= b,
            _ => false,
        }
    }

    /// Comparison operators produce `bool`.
    pub open spec fn is_comparison(self) -> bool {
        self == BinOp::Eq || self == BinOp::Ne || self == BinOp::Lt || self == BinOp::Le
            || self == BinOp::Gt || self == BinOp::Ge
    }

    pub open spec fn is_logical(self) -> bool {
        self == BinOp::And || self == BinOp::Or
    }

    pub open spec fn is_bitwise(self) -> bool {
        self == BinOp::BitAnd || self == BinOp::BitOr || self == BinOp::BitXor
            || self == BinOp::Shl || self == BinOp::Shr
    }

    pub open spec fn is_shift(self) -> bool {
        self == BinOp::Shl || self == BinOp::Shr
    }
}

} // verus!
