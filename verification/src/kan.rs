//! Kan operations: composition, coercion and homogeneous composition, with
//! face satisfaction.  These are the filling and transport operations of the
//! cubical structure.

use vstd::prelude::*;

use crate::syntax::{Dim, DimVar, Face};
use crate::value::{fvals_view, value_view, Neutral, Value, ValueV, NeutralV};

verus! {

/// Dimension environment induced by a target dimension, as an assignment of
/// dimension variables to endpoints.  A variable target dimension decides no
/// equality face: it binds nothing, so such a composition suspends rather
/// than committing to an endpoint.
pub open spec fn dim_env_of(d: Dim) -> Seq<(u32, bool)> {
    match d {
        Dim::Zero => seq![(0u32, false)],
        Dim::One => seq![(0u32, true)],
        Dim::Var(_) => Seq::empty(),
    }
}

/// The assignment of a dimension variable in an environment: the first entry
/// for the variable wins.
pub open spec fn find_dim(dims: Seq<(u32, bool)>, var: u32) -> Option<bool>
    decreases dims.len(),
{
    if dims.len() == 0 {
        None
    } else if dims[0].0 == var {
        Some(dims[0].1)
    } else {
        find_dim(dims.skip(1), var)
    }
}

/// Satisfaction of a face formula under a dimension environment.
pub open spec fn face_sat(f: Face, dims: Seq<(u32, bool)>) -> bool
    decreases f,
{
    match f {
        Face::Eq(var, val) => find_dim(dims, var.0) == Some(val),
        Face::And(f1, f2) => face_sat(*f1, dims) && face_sat(*f2, dims),
        Face::True => true,
    }
}

/// The value of the first satisfied face of a system, scanning in declared
/// order.
pub open spec fn first_face(faces: Seq<(Face, ValueV)>, dims: Seq<(u32, bool)>) -> Option<ValueV>
    decreases faces.len(),
{
    if faces.len() == 0 {
        None
    } else if face_sat(faces[0].0, dims) {
        Some(faces[0].1)
    } else {
        first_face(faces.skip(1), dims)
    }
}

/// The neutral under a value, or a fresh variable spine when the base is not
/// neutral.
pub open spec fn neutral_of(base: ValueV, fallback: Seq<char>) -> NeutralV {
    match base {
        ValueV::VNeutral { neutral, .. } => neutral,
        _ => NeutralV::NVar(fallback, 0),
    }
}

/// Composition: fills an open cube over `ty` from `base` under the face
/// system, at the target dimension.
pub open spec fn comp_s(ty: ValueV, base: ValueV, faces: Seq<(Face, ValueV)>, target: Dim) -> ValueV {
    if faces.len() == 0 && target == Dim::Zero {
        base
    } else if first_face(faces, dim_env_of(target)) is Some {
        first_face(faces, dim_env_of(target)).unwrap()
    } else {
        match ty {
            ValueV::VPi { .. } => ValueV::VNeutral {
                ty: Box::new(ty),
                neutral: NeutralV::NComp {
                    ty: Box::new(ty),
                    base: Box::new(neutral_of(base, "comp_base"@)),
                },
            },
            ValueV::VPath { .. } => ValueV::VNeutral {
                ty: Box::new(ty),
                neutral: NeutralV::NComp {
                    ty: Box::new(ty),
                    base: Box::new(neutral_of(base, "path_base"@)),
                },
            },
            ValueV::VType(_) => base,
            _ => ValueV::VNeutral {
                ty: Box::new(ty),
                neutral: NeutralV::NComp {
                    ty: Box::new(ty),
                    base: Box::new(neutral_of(base, "comp_base"@)),
                },
            },
        }
    }
}

/// Whether a type family is constant in the interval.  Lambdas are assumed to
/// vary; every other head is constant.
pub open spec fn is_constant_family_s(ty: ValueV) -> bool {
    match ty {
        ValueV::VType(_) => true,
        ValueV::VLam { .. } => false,
        _ => true,
    }
}

/// Coercion: transports `base` along the type family from one dimension to
/// the other.
pub open spec fn coe_s(fam: ValueV, from: Dim, to: Dim, base: ValueV) -> ValueV {
    if from == to {
        base
    } else if is_constant_family_s(fam) {
        base
    } else {
        match fam {
            ValueV::VType(_) => base,
            ValueV::VPi { .. } => ValueV::VNeutral {
                ty: Box::new(fam),
                neutral: NeutralV::NCoe {
                    ty_fam: Box::new(fam),
                    from: from,
                    to: to,
                    base: Box::new(neutral_of(base, "coe_base"@)),
                },
            },
            ValueV::VPath { .. } => ValueV::VNeutral {
                ty: Box::new(fam),
                neutral: NeutralV::NCoe {
                    ty_fam: Box::new(fam),
                    from: from,
                    to: to,
                    base: Box::new(neutral_of(base, "path_coe_base"@)),
                },
            },
            _ => ValueV::VNeutral {
                ty: Box::new(fam),
                neutral: NeutralV::NCoe {
                    ty_fam: Box::new(fam),
                    from: from,
                    to: to,
                    base: Box::new(neutral_of(base, "coe_base"@)),
                },
            },
        }
    }
}

/// Homogeneous composition: composition of a constant type at dimension 1.
pub open spec fn hcomp_s(ty: ValueV, base: ValueV, faces: Seq<(Face, ValueV)>) -> ValueV {
    comp_s(ty, base, faces, Dim::One)
}

/// Identity law of composition: with an empty face system at dimension 0,
/// composition returns the base unchanged.
pub proof fn lemma_comp_identity(ty: ValueV, base: ValueV)
    ensures
        comp_s(ty, base, Seq::empty(), Dim::Zero) == base,
{
}

/// Reflexivity of coercion: transporting from a dimension to itself returns
/// the base unchanged, for any type family.
pub proof fn lemma_coe_reflexivity(fam: ValueV, r: Dim, base: ValueV)
    ensures
        coe_s(fam, r, r, base) == base,
{
}

/// Homogeneous composition is definitionally composition at dimension 1.
pub proof fn lemma_hcomp_is_comp_at_one(ty: ValueV, base: ValueV, faces: Seq<(Face, ValueV)>)
    ensures
        hcomp_s(ty, base, faces) == comp_s(ty, base, faces, Dim::One),
{
}

/// The trivial face is satisfied under every dimension environment.
pub proof fn lemma_face_true(dims: Seq<(u32, bool)>)
    ensures
        face_sat(Face::True, dims),
{
}

/// Conjunction of faces is commutative up to satisfaction.
pub proof fn lemma_face_and_commutative(f1: Face, f2: Face, dims: Seq<(u32, bool)>)
    ensures
        face_sat(Face::And(Box::new(f1), Box::new(f2)), dims) == face_sat(
            Face::And(Box::new(f2), Box::new(f1)),
            dims,
        ),
{
}

/// Conjunction of faces is associative up to satisfaction.
pub proof fn lemma_face_and_associative(f1: Face, f2: Face, f3: Face, dims: Seq<(u32, bool)>)
    ensures
        face_sat(
            Face::And(Box::new(Face::And(Box::new(f1), Box::new(f2))), Box::new(f3)),
            dims,
        ) == face_sat(
            Face::And(Box::new(f1), Box::new(Face::And(Box::new(f2), Box::new(f3)))),
            dims,
        ),
{
    reveal_with_fuel(face_sat, 3);
}

/// An equality face is satisfied exactly when the environment assigns the
/// variable that endpoint.
pub proof fn lemma_face_eq(var: DimVar, val: bool, dims: Seq<(u32, bool)>)
    ensures
        face_sat(Face::Eq(var, val), dims) <==> find_dim(dims, var.0) == Some(val),
{
}

/// If no face among the first `i` is satisfied, the first satisfied face of
/// the whole system is the first satisfied face of the rest.
proof fn lemma_first_face_skip(faces: Seq<(Face, ValueV)>, dims: Seq<(u32, bool)>, i: int)
    requires
        0 <= i <= faces.len(),
        forall|j: int| 0 <= j < i ==> !face_sat(#[trigger] faces[j].0, dims),
    ensures
        first_face(faces, dims) == first_face(faces.skip(i), dims),
    decreases i,
{
    if i > 0 {
        lemma_first_face_skip(faces.skip(1), dims, i - 1);
        assert(faces.skip(1).skip(i - 1) =~= faces.skip(i));
        assert(!face_sat(faces[0].0, dims));
    } else {
        assert(faces.skip(0) =~= faces);
    }
}

/// If no entry among the first `i` binds the variable, the assignment comes
/// from the rest of the environment.
proof fn lemma_find_dim_skip(dims: Seq<(u32, bool)>, var: u32, i: int)
    requires
        0 <= i <= dims.len(),
        forall|j: int| 0 <= j < i ==> (#[trigger] dims[j]).0 != var,
    ensures
        find_dim(dims, var) == find_dim(dims.skip(i), var),
    decreases i,
{
    if i > 0 {
        lemma_find_dim_skip(dims.skip(1), var, i - 1);
        assert(dims.skip(1).skip(i - 1) =~= dims.skip(i));
    } else {
        assert(dims.skip(0) =~= dims);
    }
}

/// Decides whether a face formula is satisfied by the given dimension
/// assignments.
pub fn face_satisfied(face: &Face, dims: &Vec<(u32, bool)>) -> (r: bool)
    ensures
        r == face_sat(*face, dims@),
    decreases face,
{
    match face {
        Face::Eq(var, val) => {
            let mut i: usize = 0;
            while i < dims.len()
                invariant
                    i <= dims@.len(),
                    *face == Face::Eq(*var, *val),
                    forall|j: int| 0 <= j < i ==> (#[trigger] dims@[j]).0 != var.0,
                decreases dims@.len() - i,
            {
                if dims[i].0 == var.0 {
                    proof {
                        lemma_find_dim_skip(dims@, var.0, i as int);
                        assert(dims@.skip(i as int).len() == dims@.len() - i);
                        assert(dims@.skip(i as int)[0] == dims@[i as int]);
                        assert(find_dim(dims@.skip(i as int), var.0) == Some(dims@[i as int].1));
                        assert(find_dim(dims@, var.0) == Some(dims@[i as int].1));
                        assert(*face == Face::Eq(*var, *val));
                        assert(face_sat(*face, dims@) == (find_dim(dims@, var.0) == Some(*val)));
                    }
                    return dims[i].1 == *val;
                }
                i = i + 1;
            }
            proof {
                lemma_find_dim_skip(dims@, var.0, i as int);
                assert(dims@.skip(i as int).len() == 0);
            }
            false
        },
        Face::And(f1, f2) => face_satisfied(f1, dims) && face_satisfied(f2, dims),
        Face::True => true,
    }
}

/// Builds the dimension environment for a target dimension.
fn dim_to_env(dim: &Dim) -> (r: Vec<(u32, bool)>)
    ensures
        r@ == dim_env_of(*dim),
{
    let mut v: Vec<(u32, bool)> = Vec::new();
    match dim {
        Dim::Zero => {
            v.push((0u32, false));
        },
        Dim::One => {
            v.push((0u32, true));
        },
        Dim::Var(_) => {},
    }
    proof {
        assert(v@ =~= dim_env_of(*dim));
    }
    v
}

/// The neutral spine of a base value, or a fresh variable spine.
pub(crate) fn neutral_of_exec(base: &Value, fallback: &str) -> (r: Neutral)
    ensures
        r.deep_view() == neutral_of(base.deep_view(), fallback@),
{
    match base {
        Value::VNeutral { neutral, .. } => neutral.clone(),
        _ => Neutral::NVar(crate::syntax::Name(fallback.to_owned()), 0),
    }
}

/// Composition: fills an open cube of type `ty` from `base` under the face
/// system, at the target dimension.  With no faces at dimension 0 it is the
/// identity; a satisfied face wins, first match first; otherwise it reduces
/// by the head of the type or suspends as a neutral.
pub fn comp(ty: &Value, base: &Value, faces: &[(Face, Value)], target_dim: Dim) -> (r: Value)
    ensures
        r.deep_view() == comp_s(ty.deep_view(), base.deep_view(), fvals_view(faces@), target_dim),
{
    proof {
        crate::value::lemma_fvals_view(faces@);
    }
    if faces.len() == 0 && matches!(target_dim, Dim::Zero) {
        return base.clone();
    }
    let dims = dim_to_env(&target_dim);
    let ghost fv = fvals_view(faces@);
    let mut i: usize = 0;
    while i < faces.len()
        invariant
            i <= faces@.len(),
            fv == fvals_view(faces@),
            fv.len() == faces@.len(),
            !(faces@.len() == 0 && target_dim == Dim::Zero),
            forall|j: int| 0 <= j < faces@.len() ==> #[trigger] fv[j] == (
                faces@[j].0,
                value_view(faces@[j].1),
            ),
            dims@ == dim_env_of(target_dim),
            forall|j: int| 0 <= j < i ==> !face_sat(#[trigger] fv[j].0, dims@),
        decreases faces@.len() - i,
    {
        let sat = face_satisfied(&faces[i].0, &dims);
        if sat {
            proof {
                lemma_first_face_skip(fv, dims@, i as int);
                assert(fv.skip(i as int).len() == fv.len() - i);
                assert(fv.skip(i as int)[0] == fv[i as int]);
                assert(first_face(fv, dims@) == Some(fv[i as int].1));
            }
            return faces[i].1.clone();
        }
        i = i + 1;
    }
    proof {
        lemma_first_face_skip(fv, dims@, i as int);
        assert(fv.skip(i as int).len() == 0);
        reveal_with_fuel(value_view, 2);
        reveal_with_fuel(crate::value::neutral_view, 2);
    }
    match ty {
        Value::VPi { .. } => Value::VNeutral {
            ty: Box::new(ty.clone()),
            neutral: Neutral::NComp {
                ty: Box::new(ty.clone()),
                base: Box::new(neutral_of_exec(base, "comp_base")),
            },
        },
        Value::VPath { .. } => Value::VNeutral {
            ty: Box::new(ty.clone()),
            neutral: Neutral::NComp {
                ty: Box::new(ty.clone()),
                base: Box::new(neutral_of_exec(base, "path_base")),
            },
        },
        Value::VType(_) => base.clone(),
        _ => Value::VNeutral {
            ty: Box::new(ty.clone()),
            neutral: Neutral::NComp {
                ty: Box::new(ty.clone()),
                base: Box::new(neutral_of_exec(base, "comp_base")),
            },
        },
    }
}

/// Whether a type family is constant in the interval.
fn is_constant_family(ty: &Value) -> (r: bool)
    ensures
        r == is_constant_family_s(ty.deep_view()),
{
    match ty {
        Value::VType(_) => true,
        Value::VLam { .. } => false,
        _ => true,
    }
}

/// Coercion: transports `base` along the type family between dimensions.
/// Transport from a dimension to itself, or along a constant family, is the
/// identity; otherwise the coercion suspends as a neutral.
pub fn coe(ty_family: &Value, from: Dim, to: Dim, base: &Value) -> (r: Value)
    ensures
        r.deep_view() == coe_s(ty_family.deep_view(), from, to, base.deep_view()),
{
    if crate::syntax::dim_eq(&from, &to) {
        return base.clone();
    }
    if is_constant_family(ty_family) {
        return base.clone();
    }
    proof {
        // only a lambda family reaches this point
        assert(ty_family.deep_view() is VLam);
        reveal_with_fuel(value_view, 2);
        reveal_with_fuel(crate::value::neutral_view, 2);
    }
    match ty_family {
        Value::VType(_) => base.clone(),
        Value::VPi { .. } => Value::VNeutral {
            ty: Box::new(ty_family.clone()),
            neutral: Neutral::NCoe {
                ty_fam: Box::new(ty_family.clone()),
                from: from,
                to: to,
                base: Box::new(neutral_of_exec(base, "coe_base")),
            },
        },
        Value::VPath { .. } => Value::VNeutral {
            ty: Box::new(ty_family.clone()),
            neutral: Neutral::NCoe {
                ty_fam: Box::new(ty_family.clone()),
                from: from,
                to: to,
                base: Box::new(neutral_of_exec(base, "path_coe_base")),
            },
        },
        _ => Value::VNeutral {
            ty: Box::new(ty_family.clone()),
            neutral: Neutral::NCoe {
                ty_fam: Box::new(ty_family.clone()),
                from: from,
                to: to,
                base: Box::new(neutral_of_exec(base, "coe_base")),
            },
        },
    }
}

/// Homogeneous composition: composition of a constant type at dimension 1.
pub fn hcomp(ty: &Value, base: &Value, faces: &[(Face, Value)]) -> (r: Value)
    ensures
        r.deep_view() == hcomp_s(ty.deep_view(), base.deep_view(), fvals_view(faces@)),
{
    comp(ty, base, faces, Dim::One)
}

} // verus!
