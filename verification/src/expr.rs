//! Constraints as polynomial expressions, for degree accounting.
//!
//! A gate's declared degree is used by the surrounding framework to size the
//! commitment scheme; understating it is a silent soundness defect.  Each
//! gate therefore names its constraints as expressions over the row's wires
//! and constants, shows its evaluators compute exactly those expressions,
//! and proves the expressions' degrees stay under the declared bound.  Wires
//! and per-row constants are both committed column polynomials, so each
//! counts one toward the total degree.

use vstd::prelude::*;

use crate::field::fadd;
use crate::field::fmul;
use crate::field::fsub;

verus! {

/// A polynomial expression over the wires and constants of a row.
pub enum Expr {
    /// The constant one.
    One,
    /// The wire at the given column.
    Wire(usize),
    /// The per-row constant at the given index.
    Constant(usize),
    /// Product of two expressions.
    Mul(Box<Expr>, Box<Expr>),
    /// Difference of two expressions.
    Sub(Box<Expr>, Box<Expr>),
    /// Sum of two expressions.
    Add(Box<Expr>, Box<Expr>),
}

/// The value of an expression on a row, in the field.
pub open spec fn eval_expr(e: Expr, wires: Seq<u64>, consts: Seq<u64>) -> int
    decreases e,
{
    match e {
        Expr::One => 1,
        Expr::Wire(i) => wires[i as int] as int,
        Expr::Constant(i) => consts[i as int] as int,
        Expr::Mul(a, b) => fmul(eval_expr(*a, wires, consts), eval_expr(*b, wires, consts)),
        Expr::Sub(a, b) => fsub(eval_expr(*a, wires, consts), eval_expr(*b, wires, consts)),
        Expr::Add(a, b) => fadd(eval_expr(*a, wires, consts), eval_expr(*b, wires, consts)),
    }
}

/// The total polynomial degree of an expression, counting every wire and
/// every per-row constant as a degree-one column.
pub open spec fn expr_degree(e: Expr) -> nat
    decreases e,
{
    match e {
        Expr::One => 0,
        Expr::Wire(i) => 1,
        Expr::Constant(i) => 1,
        Expr::Mul(a, b) => expr_degree(*a) + expr_degree(*b),
        Expr::Sub(a, b) => vstd::math::max(expr_degree(*a) as int, expr_degree(*b) as int) as nat,
        Expr::Add(a, b) => vstd::math::max(expr_degree(*a) as int, expr_degree(*b) as int) as nat,
    }
}

} // verus!
