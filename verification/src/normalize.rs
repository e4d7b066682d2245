//! Read-back: converting semantic values to expressions at a fresh de Bruijn
//! level (normalization by evaluation, backward direction).

use vstd::prelude::*;

use crate::errors::{ErrKind, KernelError};
use crate::eval::{eval_fuel, eval_s};
use crate::syntax::{expr_view, Dim, Expr, ExprV, Name};
use crate::value::{
    closure_view, dim_closure_view, env_view, neutral_view, value_view, clone_env, DimEnv, Neutral,
    Value, ValueV, NeutralV,
};

verus! {

/// Read-back of a value at a de Bruijn level, with a step budget.
pub open spec fn normalize_s(v: ValueV, level: u32, fuel: nat) -> Result<ExprV, ErrKind>
    decreases fuel, 0nat,
{
    if fuel == 0 {
        Err(ErrKind::OutOfFuel)
    } else {
        match v {
            ValueV::VType(l) => Ok(ExprV::Type(l)),
            ValueV::VPi { name, domain, closure } => match normalize_s(
                *domain,
                level,
                (fuel - 1) as nat,
            ) {
                Ok(dom) => {
                    let var = ValueV::VNeutral {
                        ty: domain,
                        neutral: NeutralV::NVar(name, level),
                    };
                    match eval_s(closure.body, closure.env.push(var), Seq::empty(), (fuel - 1) as nat) {
                        Ok(cod_val) => match normalize_s(
                            cod_val,
                            (level + 1) as u32,
                            (fuel - 1) as nat,
                        ) {
                            Ok(cod) => Ok(ExprV::Pi {
                                name: name,
                                domain: Box::new(dom),
                                codomain: Box::new(cod),
                            }),
                            Err(k) => Err(k),
                        },
                        Err(k) => Err(k),
                    }
                },
                Err(k) => Err(k),
            },
            ValueV::VLam { name, closure } => {
                let var = ValueV::VNeutral {
                    ty: Box::new(ValueV::VType(0)),
                    neutral: NeutralV::NVar(name, level),
                };
                match eval_s(closure.body, closure.env.push(var), Seq::empty(), (fuel - 1) as nat) {
                    Ok(body_val) => match normalize_s(body_val, (level + 1) as u32, (fuel - 1) as nat) {
                        Ok(body) => Ok(ExprV::Lambda { name: name, body: Box::new(body) }),
                        Err(k) => Err(k),
                    },
                    Err(k) => Err(k),
                }
            },
            ValueV::VPath { ty, left, right } => match normalize_s(*ty, level, (fuel - 1) as nat) {
                Ok(t) => match normalize_s(*left, level, (fuel - 1) as nat) {
                    Ok(l) => match normalize_s(*right, level, (fuel - 1) as nat) {
                        Ok(r) => Ok(ExprV::Path {
                            ty: Box::new(t),
                            left: Box::new(l),
                            right: Box::new(r),
                        }),
                        Err(k) => Err(k),
                    },
                    Err(k) => Err(k),
                },
                Err(k) => Err(k),
            },
            ValueV::VSmoothPath { order, ty, left, right } => match normalize_s(
                *ty,
                level,
                (fuel - 1) as nat,
            ) {
                Ok(t) => match normalize_s(*left, level, (fuel - 1) as nat) {
                    Ok(l) => match normalize_s(*right, level, (fuel - 1) as nat) {
                        Ok(r) => Ok(ExprV::SmoothPath {
                            order: order,
                            ty: Box::new(t),
                            left: Box::new(l),
                            right: Box::new(r),
                        }),
                        Err(k) => Err(k),
                    },
                    Err(k) => Err(k),
                },
                Err(k) => Err(k),
            },
            ValueV::VPathLam { dim, dim_closure } => match eval_s(
                dim_closure.body,
                dim_closure.env,
                dim_closure.dim_env.push(Dim::Var(dim)),
                (fuel - 1) as nat,
            ) {
                Ok(body_val) => match normalize_s(body_val, level, (fuel - 1) as nat) {
                    Ok(body) => Ok(ExprV::PathLam { dim: dim, body: Box::new(body) }),
                    Err(k) => Err(k),
                },
                Err(k) => Err(k),
            },
            ValueV::VNeutral { neutral, .. } => normalize_neutral_s(neutral, level, (fuel - 1) as nat),
        }
    }
}

/// Read-back of a neutral spine.
pub open spec fn normalize_neutral_s(n: NeutralV, level: u32, fuel: nat) -> Result<ExprV, ErrKind>
    decreases fuel, 0nat,
{
    if fuel == 0 {
        Err(ErrKind::OutOfFuel)
    } else {
        match n {
            // a neutral carries the level at which its variable was bound;
            // read-back at the current level turns it into the index counted
            // from the innermost binder
            NeutralV::NVar(name, idx) => if idx < level {
                Ok(ExprV::Var(name, (level - 1 - idx) as u32))
            } else {
                Err(ErrKind::UnboundVariable)
            },
            NeutralV::NApp { func, arg } => match normalize_neutral_s(*func, level, (fuel - 1) as nat) {
                Ok(f) => match normalize_s(*arg, level, (fuel - 1) as nat) {
                    Ok(a) => Ok(ExprV::App { func: Box::new(f), arg: Box::new(a) }),
                    Err(k) => Err(k),
                },
                Err(k) => Err(k),
            },
            NeutralV::NPathApp { path, dim } => match normalize_neutral_s(
                *path,
                level,
                (fuel - 1) as nat,
            ) {
                Ok(p) => Ok(ExprV::PathApp { path: Box::new(p), dim: dim }),
                Err(k) => Err(k),
            },
            NeutralV::NComp { ty, base } => match normalize_s(*ty, level, (fuel - 1) as nat) {
                Ok(t) => match normalize_neutral_s(*base, level, (fuel - 1) as nat) {
                    Ok(b) => Ok(ExprV::Comp {
                        ty: Box::new(t),
                        base: Box::new(b),
                        faces: Seq::empty(),
                    }),
                    Err(k) => Err(k),
                },
                Err(k) => Err(k),
            },
            NeutralV::NCoe { ty_fam, from, to, base } => match normalize_s(
                *ty_fam,
                level,
                (fuel - 1) as nat,
            ) {
                Ok(t) => match normalize_neutral_s(*base, level, (fuel - 1) as nat) {
                    Ok(b) => Ok(ExprV::Coe {
                        ty_fam: Box::new(t),
                        from: from,
                        to: to,
                        base: Box::new(b),
                    }),
                    Err(k) => Err(k),
                },
                Err(k) => Err(k),
            },
        }
    }
}

/// Relates an executable read-back result to the mathematical one.
pub open spec fn nres(r: Result<Expr, KernelError>, s: Result<ExprV, ErrKind>) -> bool {
    match r {
        Ok(e) => s == Ok::<ExprV, ErrKind>(e.deep_view()),
        Err(e) => s == Err::<ExprV, ErrKind>(e.kind()),
    }
}

/// Read-back of a value at a de Bruijn level with an explicit step budget.
#[verifier::rlimit(100)]
pub fn normalize_fuel(val: &Value, level: u32, fuel: u64) -> (r: Result<Expr, KernelError>)
    requires
        level as nat + fuel as nat <= u32::MAX as nat,
    ensures
        nres(r, normalize_s(val.deep_view(), level, fuel as nat)),
    decreases fuel, 0nat,
{
    proof {
        reveal_with_fuel(value_view, 3);
        reveal_with_fuel(neutral_view, 3);
        reveal_with_fuel(closure_view, 3);
        reveal_with_fuel(dim_closure_view, 3);
        reveal_with_fuel(expr_view, 3);
    }
    if fuel == 0 {
        return Err(KernelError::OutOfFuel);
    }
    match val {
        Value::VType(l) => Ok(Expr::Type(*l)),
        Value::VPi { name, domain, closure } => {
            let dom = match normalize_fuel(domain, level, fuel - 1) {
                Ok(e) => e,
                Err(e) => {
                    return Err(e);
                },
            };
            let var = Value::VNeutral {
                ty: Box::new((**domain).clone()),
                neutral: Neutral::NVar(name.clone(), level),
            };
            let mut env2 = clone_env(&closure.env);
            proof {
                crate::value::lemma_env_view_push(env2@, var);
            }
            env2.push(var);
            let empty_dims: DimEnv = Vec::new();
            let cod_val = match eval_fuel(&closure.body, &env2, &empty_dims, fuel - 1) {
                Ok(v) => v,
                Err(e) => {
                    return Err(e);
                },
            };
            let cod = match normalize_fuel(&cod_val, level + 1, fuel - 1) {
                Ok(e) => e,
                Err(e) => {
                    return Err(e);
                },
            };
            Ok(Expr::Pi {
                name: name.clone(),
                domain: Box::new(dom),
                codomain: Box::new(cod),
            })
        },
        Value::VLam { name, closure } => {
            let var = Value::VNeutral {
                ty: Box::new(Value::VType(0)),
                neutral: Neutral::NVar(name.clone(), level),
            };
            let mut env2 = clone_env(&closure.env);
            proof {
                crate::value::lemma_env_view_push(env2@, var);
            }
            env2.push(var);
            let empty_dims: DimEnv = Vec::new();
            let body_val = match eval_fuel(&closure.body, &env2, &empty_dims, fuel - 1) {
                Ok(v) => v,
                Err(e) => {
                    return Err(e);
                },
            };
            let body = match normalize_fuel(&body_val, level + 1, fuel - 1) {
                Ok(e) => e,
                Err(e) => {
                    return Err(e);
                },
            };
            Ok(Expr::Lambda { name: name.clone(), body: Box::new(body) })
        },
        Value::VPath { ty, left, right } => {
            let t = match normalize_fuel(ty, level, fuel - 1) {
                Ok(e) => e,
                Err(e) => {
                    return Err(e);
                },
            };
            let l = match normalize_fuel(left, level, fuel - 1) {
                Ok(e) => e,
                Err(e) => {
                    return Err(e);
                },
            };
            let r = match normalize_fuel(right, level, fuel - 1) {
                Ok(e) => e,
                Err(e) => {
                    return Err(e);
                },
            };
            Ok(Expr::Path { ty: Box::new(t), left: Box::new(l), right: Box::new(r) })
        },
        Value::VSmoothPath { order, ty, left, right } => {
            let t = match normalize_fuel(ty, level, fuel - 1) {
                Ok(e) => e,
                Err(e) => {
                    return Err(e);
                },
            };
            let l = match normalize_fuel(left, level, fuel - 1) {
                Ok(e) => e,
                Err(e) => {
                    return Err(e);
                },
            };
            let r = match normalize_fuel(right, level, fuel - 1) {
                Ok(e) => e,
                Err(e) => {
                    return Err(e);
                },
            };
            Ok(Expr::SmoothPath {
                order: *order,
                ty: Box::new(t),
                left: Box::new(l),
                right: Box::new(r),
            })
        },
        Value::VPathLam { dim, dim_closure } => {
            let mut denv2 = crate::value::clone_dims(&dim_closure.dim_env);
            denv2.push(Dim::Var(*dim));
            let body_val = match eval_fuel(&dim_closure.body, &dim_closure.env, &denv2, fuel - 1) {
                Ok(v) => v,
                Err(e) => {
                    return Err(e);
                },
            };
            let body = match normalize_fuel(&body_val, level, fuel - 1) {
                Ok(e) => e,
                Err(e) => {
                    return Err(e);
                },
            };
            Ok(Expr::PathLam { dim: *dim, body: Box::new(body) })
        },
        Value::VNeutral { neutral, .. } => normalize_neutral_fuel(neutral, level, fuel - 1),
    }
}

/// Read-back of a neutral spine with an explicit step budget.
#[verifier::rlimit(100)]
pub fn normalize_neutral_fuel(neutral: &Neutral, level: u32, fuel: u64) -> (r: Result<
    Expr,
    KernelError,
>)
    requires
        level as nat + fuel as nat <= u32::MAX as nat,
    ensures
        nres(r, normalize_neutral_s(neutral.deep_view(), level, fuel as nat)),
    decreases fuel, 0nat,
{
    proof {
        reveal_with_fuel(value_view, 3);
        reveal_with_fuel(neutral_view, 3);
        reveal_with_fuel(expr_view, 3);
    }
    if fuel == 0 {
        return Err(KernelError::OutOfFuel);
    }
    match neutral {
        Neutral::NVar(name, idx) => {
            if *idx < level {
                Ok(Expr::Var(name.clone(), level - 1 - *idx))
            } else {
                let mut m = String::new();
                m.append("a variable above the read-back level");
                Err(KernelError::UnboundVariable(m))
            }
        },
        Neutral::NApp { func, arg } => {
            let f = match normalize_neutral_fuel(func, level, fuel - 1) {
                Ok(e) => e,
                Err(e) => {
                    return Err(e);
                },
            };
            let a = match normalize_fuel(arg, level, fuel - 1) {
                Ok(e) => e,
                Err(e) => {
                    return Err(e);
                },
            };
            Ok(Expr::App { func: Box::new(f), arg: Box::new(a) })
        },
        Neutral::NPathApp { path, dim } => {
            let p = match normalize_neutral_fuel(path, level, fuel - 1) {
                Ok(e) => e,
                Err(e) => {
                    return Err(e);
                },
            };
            Ok(Expr::PathApp { path: Box::new(p), dim: *dim })
        },
        Neutral::NComp { ty, base } => {
            let t = match normalize_fuel(ty, level, fuel - 1) {
                Ok(e) => e,
                Err(e) => {
                    return Err(e);
                },
            };
            let b = match normalize_neutral_fuel(base, level, fuel - 1) {
                Ok(e) => e,
                Err(e) => {
                    return Err(e);
                },
            };
            Ok(Expr::Comp { ty: Box::new(t), base: Box::new(b), faces: Vec::new() })
        },
        Neutral::NCoe { ty_fam, from, to, base } => {
            let t = match normalize_fuel(ty_fam, level, fuel - 1) {
                Ok(e) => e,
                Err(e) => {
                    return Err(e);
                },
            };
            let b = match normalize_neutral_fuel(base, level, fuel - 1) {
                Ok(e) => e,
                Err(e) => {
                    return Err(e);
                },
            };
            Ok(Expr::Coe {
                ty_fam: Box::new(t),
                from: *from,
                to: *to,
                base: Box::new(b),
            })
        },
    }
}

/// Reads a value back to an expression at level 0 with the default budget.
pub fn normalize(val: &Value) -> (r: Result<Expr, KernelError>)
    ensures
        nres(r, normalize_s(val.deep_view(), 0, crate::DEFAULT_FUEL as nat)),
{
    normalize_fuel(val, 0, crate::DEFAULT_FUEL)
}


/// Beta-normal within read-back's output forms: no application of a lambda
/// and no path application of a path abstraction anywhere, and only the
/// forms read-back emits (suspended compositions carry no face system).
/// Read-back only ever builds applications out of blocked spines, so its
/// output satisfies this.
pub open spec fn beta_normal(e: ExprV) -> bool
    decreases e,
{
    match e {
        ExprV::Type(_) => true,
        ExprV::Var(_, _) => true,
        ExprV::Pi { domain, codomain, .. } => beta_normal(*domain) && beta_normal(*codomain),
        ExprV::Lambda { body, .. } => beta_normal(*body),
        ExprV::App { func, arg } => !(*func is Lambda) && beta_normal(*func) && beta_normal(*arg),
        ExprV::Path { ty, left, right } => beta_normal(*ty) && beta_normal(*left) && beta_normal(
            *right,
        ),
        ExprV::PathLam { body, .. } => beta_normal(*body),
        ExprV::PathApp { path, .. } => !(*path is PathLam) && beta_normal(*path),
        ExprV::SmoothPath { ty, left, right, .. } => beta_normal(*ty) && beta_normal(*left)
            && beta_normal(*right),
        ExprV::Comp { ty, base, faces } => beta_normal(*ty) && beta_normal(*base) && faces.len()
            == 0,
        ExprV::Coe { ty_fam, base, .. } => beta_normal(*ty_fam) && beta_normal(*base),
        _ => false,
    }
}

/// The expression read back from a neutral spine: its head is blocked, so
/// applying it is no redex.
pub open spec fn spine_form(e: ExprV) -> bool {
    e is Var || e is App || e is PathApp || e is Comp || e is Coe
}

/// Read-back yields beta-normal expressions.
pub proof fn lemma_normalize_beta_normal(v: ValueV, level: u32, fuel: nat)
    ensures
        normalize_s(v, level, fuel) matches Ok(e) ==> beta_normal(e),
    decreases fuel, 0nat,
{
    if fuel > 0 {
        match v {
            ValueV::VType(_) => {},
            ValueV::VPi { name, domain, closure } => {
                lemma_normalize_beta_normal(*domain, level, (fuel - 1) as nat);
                let var = ValueV::VNeutral {
                    ty: domain,
                    neutral: NeutralV::NVar(name, level),
                };
                match eval_s(closure.body, closure.env.push(var), Seq::empty(), (fuel - 1) as nat) {
                    Ok(cod_val) => lemma_normalize_beta_normal(
                        cod_val,
                        ((level + 1) as u32),
                        (fuel - 1) as nat,
                    ),
                    _ => {},
                }
            },
            ValueV::VLam { name, closure } => {
                let var = ValueV::VNeutral {
                    ty: Box::new(ValueV::VType(0)),
                    neutral: NeutralV::NVar(name, level),
                };
                match eval_s(closure.body, closure.env.push(var), Seq::empty(), (fuel - 1) as nat) {
                    Ok(body_val) => lemma_normalize_beta_normal(
                        body_val,
                        ((level + 1) as u32),
                        (fuel - 1) as nat,
                    ),
                    _ => {},
                }
            },
            ValueV::VPath { ty, left, right } => {
                lemma_normalize_beta_normal(*ty, level, (fuel - 1) as nat);
                lemma_normalize_beta_normal(*left, level, (fuel - 1) as nat);
                lemma_normalize_beta_normal(*right, level, (fuel - 1) as nat);
            },
            ValueV::VSmoothPath { ty, left, right, .. } => {
                lemma_normalize_beta_normal(*ty, level, (fuel - 1) as nat);
                lemma_normalize_beta_normal(*left, level, (fuel - 1) as nat);
                lemma_normalize_beta_normal(*right, level, (fuel - 1) as nat);
            },
            ValueV::VPathLam { dim, dim_closure } => {
                match eval_s(
                    dim_closure.body,
                    dim_closure.env,
                    dim_closure.dim_env.push(Dim::Var(dim)),
                    (fuel - 1) as nat,
                ) {
                    Ok(body_val) => lemma_normalize_beta_normal(
                        body_val,
                        level,
                        (fuel - 1) as nat,
                    ),
                    _ => {},
                }
            },
            ValueV::VNeutral { neutral, .. } => {
                lemma_normalize_neutral_beta_normal(neutral, level, (fuel - 1) as nat);
            },
        }
    }
}

/// Read-back of a neutral spine yields a beta-normal blocked form.
pub proof fn lemma_normalize_neutral_beta_normal(n: NeutralV, level: u32, fuel: nat)
    ensures
        normalize_neutral_s(n, level, fuel) matches Ok(e) ==> beta_normal(e) && spine_form(e),
    decreases fuel, 0nat,
{
    if fuel > 0 {
        match n {
            NeutralV::NVar(_, _) => {},
            NeutralV::NApp { func, arg } => {
                lemma_normalize_neutral_beta_normal(*func, level, (fuel - 1) as nat);
                lemma_normalize_beta_normal(*arg, level, (fuel - 1) as nat);
            },
            NeutralV::NPathApp { path, .. } => {
                lemma_normalize_neutral_beta_normal(*path, level, (fuel - 1) as nat);
            },
            NeutralV::NComp { ty, base } => {
                lemma_normalize_beta_normal(*ty, level, (fuel - 1) as nat);
                lemma_normalize_neutral_beta_normal(*base, level, (fuel - 1) as nat);
            },
            NeutralV::NCoe { ty_fam, base, .. } => {
                lemma_normalize_beta_normal(*ty_fam, level, (fuel - 1) as nat);
                lemma_normalize_neutral_beta_normal(*base, level, (fuel - 1) as nat);
            },
        }
    }
}

/// First-order values: universes and (smooth) path types over them.  These
/// contain no closures, so read-back needs no fresh variables for them.
pub open spec fn first_order(v: ValueV) -> bool
    decreases v,
{
    match v {
        ValueV::VType(_) => true,
        ValueV::VPath { ty, left, right } => first_order(*ty) && first_order(*left)
            && first_order(*right),
        ValueV::VSmoothPath { ty, left, right, .. } => first_order(*ty) && first_order(*left)
            && first_order(*right),
        _ => false,
    }
}

/// The size of a first-order value, bounding the budget its round trip needs.
pub open spec fn fo_size(v: ValueV) -> nat
    decreases v,
{
    match v {
        ValueV::VPath { ty, left, right } => 1 + fo_size(*ty) + fo_size(*left) + fo_size(*right),
        ValueV::VSmoothPath { ty, left, right, .. } => 1 + fo_size(*ty) + fo_size(*left) + fo_size(
            *right,
        ),
        _ => 1,
    }
}

/// The round trip of normalization by evaluation on first-order values:
/// reading such a value back succeeds, and evaluating the read-back returns
/// the value itself, in any environment and under any adequate budget.
/// (Values with closures or neutrals are left out: their read-back opens
/// binders, and equality up to conversion is then beyond this statement.)
pub proof fn lemma_eval_normalize_roundtrip(
    v: ValueV,
    level: u32,
    fuel1: nat,
    env: Seq<ValueV>,
    denv: Seq<Dim>,
    fuel2: nat,
)
    requires
        first_order(v),
        fuel1 >= fo_size(v),
        fuel2 >= fo_size(v),
    ensures
        normalize_s(v, level, fuel1) matches Ok(e) && eval_s(e, env, denv, fuel2) == Ok::<
            ValueV,
            crate::errors::ErrKind,
        >(v),
    decreases v,
{
    match v {
        ValueV::VType(_) => {},
        ValueV::VPath { ty, left, right } => {
            lemma_eval_normalize_roundtrip(
                *ty,
                level,
                (fuel1 - 1) as nat,
                env,
                denv,
                (fuel2 - 1) as nat,
            );
            lemma_eval_normalize_roundtrip(
                *left,
                level,
                (fuel1 - 1) as nat,
                env,
                denv,
                (fuel2 - 1) as nat,
            );
            lemma_eval_normalize_roundtrip(
                *right,
                level,
                (fuel1 - 1) as nat,
                env,
                denv,
                (fuel2 - 1) as nat,
            );
        },
        ValueV::VSmoothPath { ty, left, right, .. } => {
            lemma_eval_normalize_roundtrip(
                *ty,
                level,
                (fuel1 - 1) as nat,
                env,
                denv,
                (fuel2 - 1) as nat,
            );
            lemma_eval_normalize_roundtrip(
                *left,
                level,
                (fuel1 - 1) as nat,
                env,
                denv,
                (fuel2 - 1) as nat,
            );
            lemma_eval_normalize_roundtrip(
                *right,
                level,
                (fuel1 - 1) as nat,
                env,
                denv,
                (fuel2 - 1) as nat,
            );
        },
        _ => {},
    }
}

} // verus!
