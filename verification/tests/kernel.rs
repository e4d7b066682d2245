//! Tests of the kernel: evaluation, read-back, type checking, Kan
//! operations, faces and the smooth layer.

use proveit::check::{check, infer, Context};
use proveit::eval::eval;
use proveit::kan::{coe, comp, face_satisfied, hcomp};
use proveit::normalize::normalize;
use proveit::syntax::{Dim, DimVar, Expr, Face, Name};
use proveit::value::{Env, Value};

fn var(name: &str, idx: u32) -> Expr {
    Expr::Var(Name(name.to_string()), idx)
}

fn lam(name: &str, body: Expr) -> Expr {
    Expr::Lambda {
        name: Name(name.to_string()),
        body: Box::new(body),
    }
}

#[test]
fn test_basic_type_checking() {
    assert!(true);
}

#[test]
fn test_eval_type() {
    let expr = Expr::Type(0);
    let env = Env::new();
    let val = eval(&expr, &env).unwrap();
    assert!(matches!(val, Value::VType(0)));
}

#[test]
fn test_eval_identity() {
    let expr = lam("x", var("x", 0));
    let env = Env::new();
    let val = eval(&expr, &env).unwrap();
    assert!(matches!(val, Value::VLam { .. }));
}

#[test]
fn test_normalize_type() {
    let val = Value::VType(0);
    let expr = normalize(&val).unwrap();
    assert!(matches!(expr, Expr::Type(0)));
}

#[test]
fn test_eval_normalize_roundtrip() {
    let expr = lam("x", var("x", 0));
    let val = eval(&expr, &Env::new()).unwrap();
    let normalized = normalize(&val).unwrap();
    match normalized {
        Expr::Lambda { .. } => {}
        _ => panic!("expected a lambda"),
    }
}

#[test]
fn test_type_checking() {
    let ctx = Context::new();
    let expr = Expr::Type(0);
    let ty = infer(&ctx, &expr).unwrap();
    assert!(matches!(ty, Value::VType(1)));
}

#[test]
fn test_pi_type() {
    let ctx = Context::new();
    let expr = Expr::Pi {
        name: Name("A".to_string()),
        domain: Box::new(Expr::Type(0)),
        codomain: Box::new(Expr::Type(0)),
    };
    let ty = infer(&ctx, &expr).unwrap();
    assert!(matches!(ty, Value::VType(1)));
}

#[test]
fn test_identity_coercion() {
    let ty = Value::VType(0);
    let base = Value::VType(0);
    let dim = Dim::Zero;
    let result = coe(&ty, dim.clone(), dim, &base);
    assert!(result.conv(&base));
}

#[test]
fn test_face_satisfaction() {
    let face = Face::Eq(DimVar(0), true);
    let dims = vec![(0, true)];
    assert!(face_satisfied(&face, &dims));

    let dims2 = vec![(0, false)];
    assert!(!face_satisfied(&face, &dims2));
}

#[test]
fn test_comp_with_satisfied_face() {
    let base = Value::VType(0);
    let face_value = Value::VType(1);
    let ty = Value::VType(0);
    let faces = vec![(Face::Eq(DimVar(0), false), face_value)];
    let result = comp(&ty, &base, &faces, Dim::Zero);
    assert!(matches!(result, Value::VType(_)));
}

#[test]
fn test_face_and_short_circuit() {
    let face = Face::And(
        Box::new(Face::Eq(DimVar(0), false)),
        Box::new(Face::Eq(DimVar(0), true)),
    );
    let dims = vec![(0, false)];
    assert!(!face_satisfied(&face, &dims));
    let dims = vec![(0, true)];
    assert!(!face_satisfied(&face, &dims));
}

#[test]
fn test_comp_type_universe_stability() {
    let ty = Value::VType(1);
    let base = Value::VType(0);
    let result = comp(&ty, &base, &[], Dim::Zero);
    assert!(result.conv(&Value::VType(0)));
}

#[test]
fn test_coe_constant_type_family() {
    let ty_fam = Value::VType(0);
    let base = Value::VType(0);
    let result1 = coe(&ty_fam, Dim::Zero, Dim::One, &base);
    assert!(result1.conv(&base));
    let result2 = coe(&ty_fam, Dim::One, Dim::Zero, &base);
    assert!(result2.conv(&base));
}

#[test]
fn test_hcomp_consistency_with_comp() {
    let ty = Value::VType(0);
    let base = Value::VType(0);
    let faces: Vec<(Face, Value)> = vec![];
    let hcomp_result = hcomp(&ty, &base, &faces);
    let comp_result = comp(&ty, &base, &faces, Dim::One);
    assert!(hcomp_result.conv(&comp_result));
}

#[test]
fn test_comp_identity_law_concrete() {
    // composition with an empty face system at dimension 0 is the identity
    let base = Value::VType(2);
    let ty = Value::VType(1);
    let result = comp(&ty, &base, &[], Dim::Zero);
    assert!(result.conv(&base));
}

#[test]
fn test_coe_reflexivity_concrete() {
    // transporting from a dimension to itself is the identity, lambda too
    let fam = eval(&lam("i", Expr::Type(0)), &Env::new()).unwrap();
    let base = Value::VType(0);
    let r = Dim::Var(DimVar(3));
    let result = coe(&fam, r.clone(), r, &base);
    assert!(result.conv(&base));
}

#[test]
fn test_comp_identity_through_eval() {
    let expr = Expr::Comp {
        ty: Box::new(Expr::Type(0)),
        base: Box::new(Expr::Type(0)),
        faces: vec![],
    };
    let val = eval(&expr, &Env::new()).unwrap();
    assert!(val.conv(&Value::VType(0)));
}

#[test]
fn test_coe_reflexivity_through_pipeline() {
    let dim_var = DimVar(0);
    let expr = Expr::Coe {
        ty_fam: Box::new(lam("i", Expr::Type(0))),
        from: Dim::Var(dim_var),
        to: Dim::Var(dim_var),
        base: Box::new(Expr::Type(0)),
    };
    let val = eval(&expr, &Env::new()).unwrap();
    assert!(val.conv(&Value::VType(0)));
}

#[test]
fn scenario_hcomp_is_comp_at_one() {
    // with a constant type and no faces, hcomp agrees with comp at 1,
    // and both return the base
    let a = Value::VType(0);
    let hcomp_result = hcomp(&a, &a, &[]);
    let comp_result = comp(&a, &a, &[], Dim::One);
    assert!(hcomp_result.conv(&comp_result));
    assert!(hcomp_result.conv(&Value::VType(0)));
}

#[test]
fn scenario_identity_function_checks() {
    // in the empty context, the identity lambda checks against the arrow
    // from a universe to itself
    let ctx = Context::new();
    let id_fun = lam("x", var("x", 0));
    let arrow = Expr::arrow(Expr::Type(0), Expr::Type(0));
    let arrow_ty = eval(&arrow, &Env::new()).unwrap();
    assert!(check(&ctx, &id_fun, &arrow_ty).is_ok());
}

#[test]
fn test_type_universe_level_error() {
    // the top universe has no successor
    let ctx = Context::new();
    let expr = Expr::Type(u32::MAX);
    assert!(infer(&ctx, &expr).is_err());
}

#[test]
fn test_cannot_infer_lambda() {
    let ctx = Context::new();
    let expr = lam("x", var("x", 0));
    assert!(infer(&ctx, &expr).is_err());
}

#[test]
fn test_unbound_variable_error() {
    let env = Env::new();
    assert!(eval(&var("x", 3), &env).is_err());
}

#[test]
fn test_smoothness_violation() {
    // a smooth path may ask for at most order 1000
    let ctx = Context::new();
    let expr = Expr::SmoothPath {
        order: 1001,
        ty: Box::new(Expr::Type(0)),
        left: Box::new(Expr::Type(0)),
        right: Box::new(Expr::Type(0)),
    };
    assert!(infer(&ctx, &expr).is_err());
    let fine = Expr::SmoothPath {
        order: 1000,
        ty: Box::new(Expr::Type(1)),
        left: Box::new(Expr::Type(0)),
        right: Box::new(Expr::Type(0)),
    };
    assert!(infer(&ctx, &fine).is_ok());
}

#[test]
fn test_smoothness_check() {
    let smooth_path = Value::VSmoothPath {
        order: 3,
        ty: Box::new(Value::VType(0)),
        left: Box::new(Value::VType(0)),
        right: Box::new(Value::VType(0)),
    };
    assert_eq!(proveit::smooth::check_smoothness(&smooth_path), Some(3));
    assert!(proveit::smooth::verify_smooth(&smooth_path, 2));
    assert!(!proveit::smooth::verify_smooth(&smooth_path, 5));
}

#[test]
fn test_subst_replaces_variable() {
    // substituting at level 0 replaces the variable
    let body = var("x", 0);
    let result = body.subst(0, &Expr::Type(0));
    assert!(matches!(result, Expr::Type(0)));
    // under a binder the level rises, so the outer variable stays
    let nested = lam("y", var("x", 0));
    let result2 = nested.subst(0, &Expr::Type(0));
    match result2 {
        Expr::Lambda { body, .. } => assert!(matches!(*body, Expr::Var(_, 0))),
        _ => panic!("expected a lambda"),
    }
}

#[test]
fn test_fresh_name_avoids() {
    let avoid = vec![Name("x".to_string()), Name("x1".to_string())];
    let fresh = Name::fresh("x", &avoid);
    assert!(avoid.iter().all(|n| n.0 != fresh.0));
    // with nothing to avoid the base itself comes back
    let plain = Name::fresh("y", &[]);
    assert_eq!(plain.0, "y");
}

#[test]
fn test_face_true_always_satisfied() {
    assert!(face_satisfied(&Face::True, &vec![]));
    assert!(face_satisfied(&Face::True, &vec![(0, false), (1, true)]));
}

#[test]
fn test_face_and_commutative_concrete() {
    let f1 = Face::Eq(DimVar(0), true);
    let f2 = Face::Eq(DimVar(1), false);
    let dims = vec![(0, true), (1, false)];
    let and1 = Face::And(Box::new(f1.clone()), Box::new(f2.clone()));
    let and2 = Face::And(Box::new(f2), Box::new(f1));
    assert_eq!(face_satisfied(&and1, &dims), face_satisfied(&and2, &dims));
    assert!(face_satisfied(&and1, &dims));
}

#[test]
fn test_face_eq_first_binding_wins() {
    // the first entry for a variable decides its value
    let face = Face::Eq(DimVar(0), true);
    let dims = vec![(0, true), (0, false)];
    assert!(face_satisfied(&face, &dims));
}

#[test]
fn scenario_polymorphic_identity() {
    // the polymorphic identity checks against (A : Type0) -> A -> A and
    // reads back to the same two lambdas
    let ctx = Context::new();
    let term = lam("A", lam("x", var("x", 0)));
    let ty_expr = Expr::Pi {
        name: Name("A".to_string()),
        domain: Box::new(Expr::Type(0)),
        codomain: Box::new(Expr::Pi {
            name: Name("x".to_string()),
            domain: Box::new(var("A", 0)),
            codomain: Box::new(var("A", 1)),
        }),
    };
    let ty_val = eval(&ty_expr, &Env::new()).unwrap();
    assert!(check(&ctx, &term, &ty_val).is_ok());
    let normal = normalize(&eval(&term, &Env::new()).unwrap()).unwrap();
    match &normal {
        Expr::Lambda { body, .. } => assert!(matches!(**body, Expr::Lambda { .. })),
        _ => panic!("expected the outer lambda"),
    }
    // reading back, evaluating and reading back again is stable
    let again = normalize(&eval(&normal, &Env::new()).unwrap()).unwrap();
    assert_eq!(again, normal);
}

#[test]
fn test_subst_total_over_kan_forms() {
    // substitution descends into a composition's type, base and face system
    let comp = Expr::Comp {
        ty: Box::new(var("x", 0)),
        base: Box::new(var("x", 0)),
        faces: vec![(Face::True, var("x", 0))],
    };
    let result = comp.subst(0, &Expr::Type(0));
    match result {
        Expr::Comp { ty, base, faces } => {
            assert!(matches!(*ty, Expr::Type(0)));
            assert!(matches!(*base, Expr::Type(0)));
            assert_eq!(faces.len(), 1);
            assert!(matches!(faces[0].1, Expr::Type(0)));
        }
        _ => panic!("expected a composition"),
    }
    // and into the smooth operators
    let diff = Expr::Diff {
        order: 1,
        dim: DimVar(0),
        expr: Box::new(var("x", 0)),
    };
    match diff.subst(0, &Expr::Type(0)) {
        Expr::Diff { expr, .. } => assert!(matches!(*expr, Expr::Type(0))),
        _ => panic!("expected a differential"),
    }
}

#[test]
fn test_fresh_first_free_candidate() {
    // the first free candidate wins: with the base and its first suffix
    // taken, the second suffix comes back
    let avoid = vec![
        Name("z".to_string()),
        Name("z1".to_string()),
        Name("z3".to_string()),
    ];
    let fresh = Name::fresh("z", &avoid);
    assert_eq!(fresh.0, "z2");
}
