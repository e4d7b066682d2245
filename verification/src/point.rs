//! Points of the proof graph: each point carries a proposition and a label.
//! Spatial positions and accessibility payloads are presentation data and
//! live with the host around the library.

use vstd::prelude::*;

use crate::syntax::{Expr, ExprV};

verus! {

/// Stable identifier of a point.
#[derive(Debug, Clone, Copy, PartialEq, Eq, Hash, Structural)]
pub struct PointId(pub u64);

/// A node of the proof graph: a proposition with a display label.
#[derive(Debug)]
pub struct Point {
    /// Unique identifier, assigned on insertion.
    pub id: PointId,
    /// The proposition this point represents.
    pub proposition: Expr,
    /// Human-readable label.
    pub label: String,
}

/// Mathematical view of a point.
#[verifier::ext_equal]
pub struct PointV {
    pub id: u64,
    pub proposition: ExprV,
    pub label: Seq<char>,
}

impl DeepView for Point {
    type V = PointV;

    open spec fn deep_view(&self) -> PointV {
        PointV {
            id: self.id.0,
            proposition: self.proposition.deep_view(),
            label: self.label@,
        }
    }
}

impl Clone for Point {
    /// Copies the point, keeping its view.
    fn clone(&self) -> (res: Self)
        ensures
            res.deep_view() == self.deep_view(),
    {
        Point {
            id: PointId(self.id.0),
            proposition: self.proposition.clone(),
            label: self.label.clone(),
        }
    }
}

impl Point {
    /// Makes a point; the identifier is replaced when the point enters a
    /// graph.
    pub fn new(id: PointId, proposition: Expr, label: String) -> (r: Self)
        ensures
            r.deep_view() == (PointV {
                id: id.0,
                proposition: proposition.deep_view(),
                label: label@,
            }),
    {
        Point { id, proposition, label }
    }

    /// The proof term this point stands for: its proposition.
    pub fn to_proof_term(&self) -> (r: Expr)
        ensures
            r.deep_view() == self.deep_view().proposition,
    {
        self.proposition.clone()
    }
}

/// Logical complexity of an expression, used by hosts for sonification.
pub open spec fn complexity_s(e: ExprV) -> nat
    decreases e,
{
    match e {
        ExprV::Type(_) => 1,
        ExprV::Var(_, _) => 1,
        ExprV::Pi { domain, codomain, .. } => 1 + complexity_s(*domain) + complexity_s(*codomain),
        ExprV::Lambda { body, .. } => 1 + complexity_s(*body),
        ExprV::App { func, arg } => 1 + complexity_s(*func) + complexity_s(*arg),
        ExprV::Path { ty, left, right } => 1 + complexity_s(*ty) + complexity_s(*left)
            + complexity_s(*right),
        _ => 2,
    }
}

/// Estimates the logical complexity of an expression.
pub fn estimate_complexity(expr: &Expr) -> (r: u32)
    requires
        complexity_s(expr.deep_view()) <= u32::MAX as nat,
    ensures
        r as nat == complexity_s(expr.deep_view()),
    decreases expr,
{
    proof {
        reveal_with_fuel(crate::syntax::expr_view, 2);
    }
    match expr {
        Expr::Type(_) => 1,
        Expr::Var(_, _) => 1,
        Expr::Pi { domain, codomain, .. } => 1 + estimate_complexity(domain) + estimate_complexity(
            codomain,
        ),
        Expr::Lambda { body, .. } => 1 + estimate_complexity(body),
        Expr::App { func, arg } => 1 + estimate_complexity(func) + estimate_complexity(arg),
        Expr::Path { ty, left, right } => 1 + estimate_complexity(ty) + estimate_complexity(left)
            + estimate_complexity(right),
        _ => 2,
    }
}

} // verus!
