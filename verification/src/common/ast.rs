use vstd::prelude::*;

verus! {

/// Binary operators of the language.
#[derive(Debug, Clone, Copy, PartialEq, Eq, Structural)]
pub enum BinOpKind {
    // arithmetic
    Add,
    Sub,
    Mul,
    Div,
    // comparison
    Lt,
    Gt,
    LtEq,
    GtEq,
    // equality
    EqEq,
    NotEq,
    // logical
    And,
    Or,
}

/// The source text of an operator.
pub open spec fn bin_op_symbol(op: BinOpKind) -> Seq<char> {
    match op {
        BinOpKind::Add => "+"@,
        BinOpKind::Sub => "-"@,
        BinOpKind::Mul => "*"@,
        BinOpKind::Div => "/"@,
        BinOpKind::Lt => "<"@,
        BinOpKind::Gt => ">"@,
        BinOpKind::LtEq => "<="@,
        BinOpKind::GtEq => ">="@,
        BinOpKind::EqEq => "=="@,
        BinOpKind::NotEq => "!="@,
        BinOpKind::And => "&&"@,
        BinOpKind::Or => "||"@,
    }
}

impl BinOpKind {
    /// The operator as it is written.
    pub fn symbol(&self) -> (s: &'static str)
        ensures
            s@ == bin_op_symbol(*self),
    {
        match self {
            BinOpKind::Add => "+",
            BinOpKind::Sub => "-",
            BinOpKind::Mul => "*",
            BinOpKind::Div => "/",
            BinOpKind::Lt => "<",
            BinOpKind::Gt => ">",
            BinOpKind::LtEq => "<=",
            BinOpKind::GtEq => ">=",
            BinOpKind::EqEq => "==",
            BinOpKind::NotEq => "!=",
            BinOpKind::And => "&&",
            BinOpKind::Or => "||",
        }
    }
}

/// Unary operators of the language.
#[derive(Debug, Clone, Copy, PartialEq, Eq, Structural)]
pub enum UnaryOpKind {
    Neg,
    Not,
}

/// Literal values.
#[derive(Debug, Clone, Copy, PartialEq, Eq, Structural)]
pub enum Literal {
    Int(i64),
    Bool(bool),
}

} // verus!
