//! Smooth structure: the differential operators reduce as identities for
//! now, and smoothness orders can be read off and compared.

use vstd::prelude::*;

use crate::syntax::{Dim, DimVar};
use crate::value::{Value, ValueV};

verus! {

/// The differentiability order a value guarantees: a smooth path carries its
/// order, an ordinary path is smooth to every order, anything else none.
pub open spec fn smoothness_of(v: ValueV) -> Option<u32> {
    match v {
        ValueV::VSmoothPath { order, .. } => Some(order),
        ValueV::VPath { .. } => Some(u32::MAX),
        _ => None,
    }
}

/// Differentiates a smooth path with respect to a dimension variable.  The
/// calculus of the smooth operators is not specified yet, so this reduces as
/// the identity.
pub fn differentiate(path: &Value, _dim: DimVar, _order: u32) -> (r: Value)
    ensures
        r.deep_view() == path.deep_view(),
{
    path.clone()
}

/// Integrates along a dimension between two endpoints; reduces as the
/// identity until the calculus is specified.
pub fn integrate(integrand: &Value, _dim: DimVar, _from: Dim, _to: Dim) -> (r: Value)
    ensures
        r.deep_view() == integrand.deep_view(),
{
    integrand.clone()
}

/// Taylor expansion around a point; reduces as the identity until the
/// calculus is specified.
pub fn taylor_expand(function: &Value, _point: &Value, _order: u32) -> (r: Value)
    ensures
        r.deep_view() == function.deep_view(),
{
    function.clone()
}

/// Reads the smoothness order of a path value.
pub fn check_smoothness(path: &Value) -> (r: Option<u32>)
    ensures
        r == smoothness_of(path.deep_view()),
{
    match path {
        Value::VSmoothPath { order, .. } => Some(*order),
        Value::VPath { .. } => Some(u32::MAX),
        _ => None,
    }
}

/// Whether a path value is at least as smooth as required.
pub fn verify_smooth(path: &Value, required_order: u32) -> (r: bool)
    ensures
        r == match smoothness_of(path.deep_view()) {
            Some(order) => order >= required_order,
            None => false,
        },
{
    match check_smoothness(path) {
        Some(order) => order >= required_order,
        None => false,
    }
}

} // verus!
