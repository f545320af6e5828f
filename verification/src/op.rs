//! The binary operators shared by both tiers of the representation.

use vstd::prelude::*;

verus! {

/// The arithmetic and comparison operators an expression node may carry.
///
/// The five arithmetic operators keep the operand type; the six comparison
/// operators produce a boolean.
#[derive(Clone, Copy, Debug, Hash, PartialEq, Eq, Structural)]
pub enum BinOp {
    Add,
    Sub,
    Mul,
    Div,
    Rem,
    Eq,
    Lt,
    Le,
    Ne,
    Ge,
    Gt,
}

/// True of the operators that compare their operands and so evaluate to a
/// boolean; false of the arithmetic operators.
pub open spec fn spec_is_comparison(op: BinOp) -> bool {
    match op {
        BinOp::Eq | BinOp::Lt | BinOp::Le | BinOp::Ne | BinOp::Ge | BinOp::Gt => true,
        _ => false,
    }
}

impl BinOp {
    /// Whether this operator is a comparison (and so yields a boolean).
    pub fn is_comparison(&self) -> (r: bool)
        ensures
            r == spec_is_comparison(*self),
    {
        match self {
            BinOp::Eq | BinOp::Lt | BinOp::Le | BinOp::Ne | BinOp::Ge | BinOp::Gt => true,
            _ => false,
        }
    }
}

/// The canonical symbol each operator renders to.
pub open spec fn spec_op_symbol(op: BinOp) -> Seq<char> {
    match op {
        BinOp::Add => "+"@,
        BinOp::Sub => "-"@,
        BinOp::Mul => "*"@,
        BinOp::Div => "/"@,
        BinOp::Rem => "%"@,
        BinOp::Eq => "="@,
        BinOp::Lt => "<"@,
        BinOp::Le => "<="@,
        BinOp::Ne => "!="@,
        BinOp::Ge => ">="@,
        BinOp::Gt => ">"@,
    }
}

impl BinOp {
    /// The textual symbol of this operator in the canonical rendering.
    pub fn symbol(&self) -> (r: &'static str)
        ensures
            r@ == spec_op_symbol(*self),
    {
        match self {
            BinOp::Add => "+",
            BinOp::Sub => "-",
            BinOp::Mul => "*",
            BinOp::Div => "/",
            BinOp::Rem => "%",
            BinOp::Eq => "=",
            BinOp::Lt => "<",
            BinOp::Le => "<=",
            BinOp::Ne => "!=",
            BinOp::Ge => ">=",
            BinOp::Gt => ">",
        }
    }
}

} // verus!
