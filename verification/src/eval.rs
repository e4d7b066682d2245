//! Evaluation of expressions to semantic values (normalization by
//! evaluation, forward direction).  Every kernel call carries a step budget:
//! each recursive descent consumes one step, so evaluation of an ill-typed
//! self-applying term ends in `OutOfFuel` instead of diverging.  An
//! out-of-range de Bruijn index is a caller's bug; the kernel's functions do
//! not panic, so it is reported as the `UnboundVariable` error value.

use vstd::prelude::*;

use crate::errors::{ErrKind, KernelError};
use crate::kan::{comp_s, coe_s, hcomp_s};
use crate::syntax::{expr_view, faces_view, Dim, Expr, ExprV, Face};
use crate::text::u32_to_string;
use crate::value::{
    closure_view, dim_closure_view, env_view, fvals_view, neutral_view, value_view, clone_env,
    Closure, DimClosure, DimEnv, Env, Neutral, Value, ValueV,
};

verus! {

/// Relates an executable kernel result to its mathematical counterpart: the
/// views agree on success, the kinds agree on failure.
pub open spec fn kres(r: Result<Value, KernelError>, s: Result<ValueV, ErrKind>) -> bool {
    match r {
        Ok(v) => s == Ok::<ValueV, ErrKind>(v.deep_view()),
        Err(e) => s == Err::<ValueV, ErrKind>(e.kind()),
    }
}

/// Resolution of a dimension through the dimension environment: a variable
/// bound in the environment is replaced, everything else stands.
pub open spec fn resolve_dim_s(d: Dim, denv: Seq<Dim>) -> Dim {
    match d {
        Dim::Var(v) => if v.0 < denv.len() {
            denv[v.0 as int]
        } else {
            Dim::Var(v)
        },
        _ => d,
    }
}

/// Evaluation of an expression under a value environment and a dimension
/// environment, with a step budget.
pub open spec fn eval_s(e: ExprV, env: Seq<ValueV>, denv: Seq<Dim>, fuel: nat) -> Result<
    ValueV,
    ErrKind,
>
    decreases fuel, 0nat,
{
    if fuel == 0 {
        Err(ErrKind::OutOfFuel)
    } else {
        match e {
            ExprV::Type(l) => Ok(ValueV::VType(l)),
            ExprV::Var(_n, i) => if i < env.len() {
                Ok(env[env.len() - 1 - i])
            } else {
                Err(ErrKind::UnboundVariable)
            },
            ExprV::Pi { name, domain, codomain } => match eval_s(*domain, env, denv, (fuel - 1) as nat) {
                Ok(d) => Ok(ValueV::VPi {
                    name: name,
                    domain: Box::new(d),
                    closure: crate::value::ClosureV { env: env, body: *codomain },
                }),
                Err(k) => Err(k),
            },
            ExprV::Lambda { name, body } => Ok(ValueV::VLam {
                name: name,
                closure: crate::value::ClosureV { env: env, body: *body },
            }),
            ExprV::App { func, arg } => match eval_s(*func, env, denv, (fuel - 1) as nat) {
                Ok(f) => match eval_s(*arg, env, denv, (fuel - 1) as nat) {
                    Ok(a) => apply_s(f, a, (fuel - 1) as nat),
                    Err(k) => Err(k),
                },
                Err(k) => Err(k),
            },
            ExprV::Path { ty, left, right } => match eval_s(*ty, env, denv, (fuel - 1) as nat) {
                Ok(t) => match eval_s(*left, env, denv, (fuel - 1) as nat) {
                    Ok(l) => match eval_s(*right, env, denv, (fuel - 1) as nat) {
                        Ok(r) => Ok(ValueV::VPath {
                            ty: Box::new(t),
                            left: Box::new(l),
                            right: Box::new(r),
                        }),
                        Err(k) => Err(k),
                    },
                    Err(k) => Err(k),
                },
                Err(k) => Err(k),
            },
            ExprV::PathLam { dim, body } => Ok(ValueV::VPathLam {
                dim: dim,
                dim_closure: crate::value::DimClosureV { env: env, dim_env: denv, body: *body },
            }),
            ExprV::PathApp { path, dim } => match eval_s(*path, env, denv, (fuel - 1) as nat) {
                Ok(p) => apply_path_s(p, resolve_dim_s(dim, denv), (fuel - 1) as nat),
                Err(k) => Err(k),
            },
            ExprV::SmoothPath { order, ty, left, right } => match eval_s(
                *ty,
                env,
                denv,
                (fuel - 1) as nat,
            ) {
                Ok(t) => match eval_s(*left, env, denv, (fuel - 1) as nat) {
                    Ok(l) => match eval_s(*right, env, denv, (fuel - 1) as nat) {
                        Ok(r) => Ok(ValueV::VSmoothPath {
                            order: order,
                            ty: Box::new(t),
                            left: Box::new(l),
                            right: Box::new(r),
                        }),
                        Err(k) => Err(k),
                    },
                    Err(k) => Err(k),
                },
                Err(k) => Err(k),
            },
            ExprV::Comp { ty, base, faces } => match eval_s(*ty, env, denv, (fuel - 1) as nat) {
                Ok(t) => match eval_s(*base, env, denv, (fuel - 1) as nat) {
                    Ok(b) => match eval_faces_s(faces, env, denv, (fuel - 1) as nat) {
                        Ok(fs) => Ok(comp_s(t, b, fs, Dim::One)),
                        Err(k) => Err(k),
                    },
                    Err(k) => Err(k),
                },
                Err(k) => Err(k),
            },
            ExprV::Coe { ty_fam, from, to, base } => match eval_s(*ty_fam, env, denv, (fuel - 1) as nat) {
                Ok(t) => match eval_s(*base, env, denv, (fuel - 1) as nat) {
                    Ok(b) => Ok(coe_s(t, resolve_dim_s(from, denv), resolve_dim_s(to, denv), b)),
                    Err(k) => Err(k),
                },
                Err(k) => Err(k),
            },
            ExprV::HComp { ty, base, faces } => match eval_s(*ty, env, denv, (fuel - 1) as nat) {
                Ok(t) => match eval_s(*base, env, denv, (fuel - 1) as nat) {
                    Ok(b) => match eval_faces_s(faces, env, denv, (fuel - 1) as nat) {
                        Ok(fs) => Ok(hcomp_s(t, b, fs)),
                        Err(k) => Err(k),
                    },
                    Err(k) => Err(k),
                },
                Err(k) => Err(k),
            },
            ExprV::Glue { base, .. } => eval_s(*base, env, denv, (fuel - 1) as nat),
            ExprV::Diff { expr, .. } => match eval_s(*expr, env, denv, (fuel - 1) as nat) {
                Ok(v) => Ok(smooth_neutral_s(v)),
                Err(k) => Err(k),
            },
            ExprV::Integral { expr, .. } => match eval_s(*expr, env, denv, (fuel - 1) as nat) {
                Ok(v) => Ok(smooth_neutral_s(v)),
                Err(k) => Err(k),
            },
            ExprV::Taylor { point, expr, .. } => match eval_s(*point, env, denv, (fuel - 1) as nat) {
                Ok(_) => match eval_s(*expr, env, denv, (fuel - 1) as nat) {
                    Ok(v) => Ok(smooth_neutral_s(v)),
                    Err(k) => Err(k),
                },
                Err(k) => Err(k),
            },
        }
    }
}

/// The smooth operators do not compute yet: their operand suspends as a
/// neutral composition.
pub open spec fn smooth_neutral_s(v: ValueV) -> ValueV {
    ValueV::VNeutral {
        ty: Box::new(ValueV::VType(0)),
        neutral: crate::value::NeutralV::NComp {
            ty: Box::new(ValueV::VType(0)),
            base: Box::new(crate::kan::neutral_of(v, "smooth"@)),
        },
    }
}

/// Evaluation of a face system, in declared order; the first failure wins.
pub open spec fn eval_faces_s(
    faces: Seq<(Face, ExprV)>,
    env: Seq<ValueV>,
    denv: Seq<Dim>,
    fuel: nat,
) -> Result<Seq<(Face, ValueV)>, ErrKind>
    decreases fuel, faces.len() + 1,
{
    if faces.len() == 0 {
        Ok(Seq::empty())
    } else {
        match eval_faces_s(faces.drop_last(), env, denv, fuel) {
            Ok(rest) => match eval_s(faces.last().1, env, denv, fuel) {
                Ok(v) => Ok(rest.push((faces.last().0, v))),
                Err(k) => Err(k),
            },
            Err(k) => Err(k),
        }
    }
}

/// Application of a function value to an argument.
pub open spec fn apply_s(f: ValueV, a: ValueV, fuel: nat) -> Result<ValueV, ErrKind>
    decreases fuel, 0nat,
{
    if fuel == 0 {
        Err(ErrKind::OutOfFuel)
    } else {
        match f {
            ValueV::VLam { closure, .. } => eval_s(
                closure.body,
                closure.env.push(a),
                Seq::empty(),
                (fuel - 1) as nat,
            ),
            ValueV::VNeutral { ty, neutral } => match *ty {
                ValueV::VPi { closure, .. } => match eval_s(
                    closure.body,
                    closure.env.push(a),
                    Seq::empty(),
                    (fuel - 1) as nat,
                ) {
                    Ok(cod) => Ok(ValueV::VNeutral {
                        ty: Box::new(cod),
                        neutral: crate::value::NeutralV::NApp {
                            func: Box::new(neutral),
                            arg: Box::new(a),
                        },
                    }),
                    Err(k) => Err(k),
                },
                _ => Ok(ValueV::VNeutral {
                    ty: ty,
                    neutral: crate::value::NeutralV::NApp {
                        func: Box::new(neutral),
                        arg: Box::new(a),
                    },
                }),
            },
            _ => Err(ErrKind::TypeMismatch),
        }
    }
}

/// Application of a path value to a dimension.
pub open spec fn apply_path_s(p: ValueV, d: Dim, fuel: nat) -> Result<ValueV, ErrKind>
    decreases fuel, 0nat,
{
    if fuel == 0 {
        Err(ErrKind::OutOfFuel)
    } else {
        match p {
            ValueV::VPathLam { dim_closure, .. } => eval_s(
                dim_closure.body,
                dim_closure.env,
                dim_closure.dim_env.push(d),
                (fuel - 1) as nat,
            ),
            ValueV::VNeutral { ty, neutral } => {
                let endpoint = match *ty {
                    ValueV::VPath { ty: inner, .. } => inner,
                    _ => ty,
                };
                Ok(ValueV::VNeutral {
                    ty: endpoint,
                    neutral: crate::value::NeutralV::NPathApp {
                        path: Box::new(neutral),
                        dim: d,
                    },
                })
            },
            _ => Err(ErrKind::TypeMismatch),
        }
    }
}


/// Errors of a face-system evaluation propagate to the whole system.
proof fn lemma_eval_faces_err(
    s: Seq<(Face, ExprV)>,
    env: Seq<ValueV>,
    denv: Seq<Dim>,
    fuel: nat,
    i: int,
    k: ErrKind,
)
    requires
        0 <= i < s.len(),
        eval_faces_s(s.subrange(0, i), env, denv, fuel) is Ok,
        eval_s(s[i].1, env, denv, fuel) == Err::<ValueV, ErrKind>(k),
    ensures
        eval_faces_s(s, env, denv, fuel) == Err::<Seq<(Face, ValueV)>, ErrKind>(k),
    decreases s.len(),
{
    if s.len() == i + 1 {
        assert(s.drop_last() =~= s.subrange(0, i));
        assert(s.last() == s[i]);
    } else {
        assert(s.drop_last().subrange(0, i) =~= s.subrange(0, i));
        lemma_eval_faces_err(s.drop_last(), env, denv, fuel, i, k);
    }
}

/// Resolves a dimension through the dimension environment.
pub fn resolve_dim(dim: &Dim, dim_env: &DimEnv) -> (r: Dim)
    ensures
        r == resolve_dim_s(*dim, dim_env@),
{
    match dim {
        Dim::Var(v) => {
            if (v.0 as usize) < dim_env.len() {
                dim_env[v.0 as usize]
            } else {
                Dim::Var(*v)
            }
        },
        d => *d,
    }
}

/// Evaluates an expression under both environments with an explicit step
/// budget.  The result agrees with the mathematical evaluation function:
/// success returns its value, failure carries the same error kind.
#[verifier::rlimit(100)]
pub fn eval_fuel(expr: &Expr, env: &Env, dim_env: &DimEnv, fuel: u64) -> (r: Result<
    Value,
    KernelError,
>)
    ensures
        kres(r, eval_s(expr.deep_view(), env_view(env@), dim_env@, fuel as nat)),
    decreases fuel, 0nat,
{
    proof {
        reveal_with_fuel(value_view, 3);
        reveal_with_fuel(neutral_view, 3);
        reveal_with_fuel(closure_view, 3);
        reveal_with_fuel(dim_closure_view, 3);
    }
    if fuel == 0 {
        return Err(KernelError::OutOfFuel);
    }
    match expr {
        Expr::Type(level) => Ok(Value::VType(*level)),
        Expr::Var(_name, idx) => {
            proof {
                crate::value::lemma_env_view(env@);
            }
            if (*idx as usize) < env.len() {
                Ok(env[env.len() - 1 - *idx as usize].clone())
            } else {
                let mut m = String::new();
                m.append("index ");
                m.append(u32_to_string(*idx).as_str());
                Err(KernelError::UnboundVariable(m))
            }
        },
        Expr::Pi { name, domain, codomain } => {
            let domain_val = match eval_fuel(domain, env, dim_env, fuel - 1) {
                Ok(v) => v,
                Err(e) => {
                    return Err(e);
                },
            };
            Ok(Value::VPi {
                name: name.clone(),
                domain: Box::new(domain_val),
                closure: Closure { env: clone_env(env), body: (**codomain).clone() },
            })
        },
        Expr::Lambda { name, body } => Ok(Value::VLam {
            name: name.clone(),
            closure: Closure { env: clone_env(env), body: (**body).clone() },
        }),
        Expr::App { func, arg } => {
            let func_val = match eval_fuel(func, env, dim_env, fuel - 1) {
                Ok(v) => v,
                Err(e) => {
                    return Err(e);
                },
            };
            let arg_val = match eval_fuel(arg, env, dim_env, fuel - 1) {
                Ok(v) => v,
                Err(e) => {
                    return Err(e);
                },
            };
            apply_fuel(&func_val, arg_val, fuel - 1)
        },
        Expr::Path { ty, left, right } => {
            let ty_val = match eval_fuel(ty, env, dim_env, fuel - 1) {
                Ok(v) => v,
                Err(e) => {
                    return Err(e);
                },
            };
            let left_val = match eval_fuel(left, env, dim_env, fuel - 1) {
                Ok(v) => v,
                Err(e) => {
                    return Err(e);
                },
            };
            let right_val = match eval_fuel(right, env, dim_env, fuel - 1) {
                Ok(v) => v,
                Err(e) => {
                    return Err(e);
                },
            };
            Ok(Value::VPath {
                ty: Box::new(ty_val),
                left: Box::new(left_val),
                right: Box::new(right_val),
            })
        },
        Expr::PathLam { dim, body } => Ok(Value::VPathLam {
            dim: *dim,
            dim_closure: DimClosure {
                env: clone_env(env),
                dim_env: crate::value::clone_dims(dim_env),
                body: (**body).clone(),
            },
        }),
        Expr::PathApp { path, dim } => {
            let path_val = match eval_fuel(path, env, dim_env, fuel - 1) {
                Ok(v) => v,
                Err(e) => {
                    return Err(e);
                },
            };
            let resolved = resolve_dim(dim, dim_env);
            apply_path_fuel(path_val, resolved, fuel - 1)
        },
        Expr::SmoothPath { order, ty, left, right } => {
            let ty_val = match eval_fuel(ty, env, dim_env, fuel - 1) {
                Ok(v) => v,
                Err(e) => {
                    return Err(e);
                },
            };
            let left_val = match eval_fuel(left, env, dim_env, fuel - 1) {
                Ok(v) => v,
                Err(e) => {
                    return Err(e);
                },
            };
            let right_val = match eval_fuel(right, env, dim_env, fuel - 1) {
                Ok(v) => v,
                Err(e) => {
                    return Err(e);
                },
            };
            Ok(Value::VSmoothPath {
                order: *order,
                ty: Box::new(ty_val),
                left: Box::new(left_val),
                right: Box::new(right_val),
            })
        },
        Expr::Comp { ty, base, faces } => {
            let ty_val = match eval_fuel(ty, env, dim_env, fuel - 1) {
                Ok(v) => v,
                Err(e) => {
                    return Err(e);
                },
            };
            let base_val = match eval_fuel(base, env, dim_env, fuel - 1) {
                Ok(v) => v,
                Err(e) => {
                    return Err(e);
                },
            };
            let faces_val = match eval_face_list(faces, env, dim_env, fuel - 1) {
                Ok(v) => v,
                Err(e) => {
                    return Err(e);
                },
            };
            Ok(crate::kan::comp(&ty_val, &base_val, faces_val.as_slice(), Dim::One))
        },
        Expr::Coe { ty_fam, from, to, base } => {
            let ty_fam_val = match eval_fuel(ty_fam, env, dim_env, fuel - 1) {
                Ok(v) => v,
                Err(e) => {
                    return Err(e);
                },
            };
            let base_val = match eval_fuel(base, env, dim_env, fuel - 1) {
                Ok(v) => v,
                Err(e) => {
                    return Err(e);
                },
            };
            let from_resolved = resolve_dim(from, dim_env);
            let to_resolved = resolve_dim(to, dim_env);
            Ok(crate::kan::coe(&ty_fam_val, from_resolved, to_resolved, &base_val))
        },
        Expr::HComp { ty, base, faces } => {
            let ty_val = match eval_fuel(ty, env, dim_env, fuel - 1) {
                Ok(v) => v,
                Err(e) => {
                    return Err(e);
                },
            };
            let base_val = match eval_fuel(base, env, dim_env, fuel - 1) {
                Ok(v) => v,
                Err(e) => {
                    return Err(e);
                },
            };
            let faces_val = match eval_face_list(faces, env, dim_env, fuel - 1) {
                Ok(v) => v,
                Err(e) => {
                    return Err(e);
                },
            };
            Ok(crate::kan::hcomp(&ty_val, &base_val, faces_val.as_slice()))
        },
        Expr::Glue { base, .. } => eval_fuel(base, env, dim_env, fuel - 1),
        Expr::Diff { expr: inner, .. } => {
            let inner_val = match eval_fuel(inner, env, dim_env, fuel - 1) {
                Ok(v) => v,
                Err(e) => {
                    return Err(e);
                },
            };
            Ok(smooth_neutral(&inner_val))
        },
        Expr::Integral { expr: inner, .. } => {
            let inner_val = match eval_fuel(inner, env, dim_env, fuel - 1) {
                Ok(v) => v,
                Err(e) => {
                    return Err(e);
                },
            };
            Ok(smooth_neutral(&inner_val))
        },
        Expr::Taylor { point, expr: inner, .. } => {
            let _point_val = match eval_fuel(point, env, dim_env, fuel - 1) {
                Ok(v) => v,
                Err(e) => {
                    return Err(e);
                },
            };
            let inner_val = match eval_fuel(inner, env, dim_env, fuel - 1) {
                Ok(v) => v,
                Err(e) => {
                    return Err(e);
                },
            };
            Ok(smooth_neutral(&inner_val))
        },
    }
}

/// Suspends a smooth operator's operand as a neutral composition.
fn smooth_neutral(v: &Value) -> (r: Value)
    ensures
        r.deep_view() == smooth_neutral_s(v.deep_view()),
{
    proof {
        reveal_with_fuel(value_view, 3);
        reveal_with_fuel(neutral_view, 3);
    }
    Value::VNeutral {
        ty: Box::new(Value::VType(0)),
        neutral: Neutral::NComp {
            ty: Box::new(Value::VType(0)),
            base: Box::new(crate::kan::neutral_of_exec(v, "smooth")),
        },
    }
}

/// Evaluates every expression of a face system, in declared order.
fn eval_face_list(faces: &Vec<(Face, Expr)>, env: &Env, dim_env: &DimEnv, fuel: u64) -> (r: Result<
    Vec<(Face, Value)>,
    KernelError,
>)
    ensures
        match r {
            Ok(v) => eval_faces_s(faces_view(faces@), env_view(env@), dim_env@, fuel as nat)
                == Ok::<Seq<(Face, ValueV)>, ErrKind>(fvals_view(v@)),
            Err(e) => eval_faces_s(faces_view(faces@), env_view(env@), dim_env@, fuel as nat)
                == Err::<Seq<(Face, ValueV)>, ErrKind>(e.kind()),
        },
    decreases fuel, 1nat,
{
    let ghost efv = faces_view(faces@);
    proof {
        crate::syntax::lemma_faces_view(faces@);
    }
    let mut out: Vec<(Face, Value)> = Vec::new();
    let mut i: usize = 0;
    proof {
        assert(efv.subrange(0, 0) =~= Seq::<(Face, ExprV)>::empty());
    }
    while i < faces.len()
        invariant
            i <= faces@.len(),
            efv == faces_view(faces@),
            efv.len() == faces@.len(),
            forall|j: int|
                0 <= j < faces@.len() ==> #[trigger] efv[j] == (
                    faces@[j].0,
                    expr_view(faces@[j].1),
                ),
            out@.len() == i,
            eval_faces_s(efv.subrange(0, i as int), env_view(env@), dim_env@, fuel as nat)
                == Ok::<Seq<(Face, ValueV)>, ErrKind>(fvals_view(out@)),
        decreases faces@.len() - i,
    {
        proof {
            assert(decreases_to!(faces => faces@));
            assert(decreases_to!(faces@ => faces@[i as int]));
            assert(decreases_to!(faces@[i as int] => faces@[i as int].1));
        }
        let face = faces[i].0.clone();
        let v = match eval_fuel(&faces[i].1, env, dim_env, fuel) {
            Ok(v) => v,
            Err(e) => {
                proof {
                    lemma_eval_faces_err(
                        efv,
                        env_view(env@),
                        dim_env@,
                        fuel as nat,
                        i as int,
                        e.kind(),
                    );
                }
                return Err(e);
            },
        };
        let ghost old_out = out@;
        out.push((face, v));
        proof {
            assert(out@.drop_last() =~= old_out);
            assert(efv.subrange(0, i + 1 as int).drop_last() =~= efv.subrange(0, i as int));
            assert(efv.subrange(0, i + 1 as int).last() == efv[i as int]);
        }
        i = i + 1;
    }
    proof {
        assert(efv.subrange(0, i as int) =~= efv);
    }
    Ok(out)
}

/// Applies a function value to an argument with a step budget.
pub fn apply_fuel(f: &Value, arg: Value, fuel: u64) -> (r: Result<Value, KernelError>)
    ensures
        kres(r, apply_s(f.deep_view(), arg.deep_view(), fuel as nat)),
    decreases fuel, 0nat,
{
    proof {
        reveal_with_fuel(value_view, 3);
        reveal_with_fuel(neutral_view, 3);
        reveal_with_fuel(closure_view, 3);
        reveal_with_fuel(dim_closure_view, 3);
    }
    if fuel == 0 {
        return Err(KernelError::OutOfFuel);
    }
    match f {
        Value::VLam { closure, .. } => {
            let mut env2 = clone_env(&closure.env);
            proof {
                crate::value::lemma_env_view_push(env2@, arg);
            }
            env2.push(arg);
            let empty_dims: DimEnv = Vec::new();
            eval_fuel(&closure.body, &env2, &empty_dims, fuel - 1)
        },
        Value::VNeutral { ty, neutral } => {
            match &**ty {
                Value::VPi { closure, .. } => {
                    let arg2 = arg.clone();
                    let mut env2 = clone_env(&closure.env);
                    proof {
                        crate::value::lemma_env_view_push(env2@, arg2);
                    }
                    env2.push(arg2);
                    let empty_dims: DimEnv = Vec::new();
                    let cod = match eval_fuel(&closure.body, &env2, &empty_dims, fuel - 1) {
                        Ok(v) => v,
                        Err(e) => {
                            return Err(e);
                        },
                    };
                    Ok(Value::VNeutral {
                        ty: Box::new(cod),
                        neutral: Neutral::NApp {
                            func: Box::new(neutral.clone()),
                            arg: Box::new(arg),
                        },
                    })
                },
                _ => Ok(Value::VNeutral {
                    ty: Box::new((**ty).clone()),
                    neutral: Neutral::NApp {
                        func: Box::new(neutral.clone()),
                        arg: Box::new(arg),
                    },
                }),
            }
        },
        _ => Err(KernelError::TypeMismatch {
            expected: "function".to_owned(),
            got: "non-function value".to_owned(),
        }),
    }
}

/// Applies a path value to a dimension with a step budget.
pub fn apply_path_fuel(p: Value, d: Dim, fuel: u64) -> (r: Result<Value, KernelError>)
    ensures
        kres(r, apply_path_s(p.deep_view(), d, fuel as nat)),
    decreases fuel, 0nat,
{
    proof {
        reveal_with_fuel(value_view, 3);
        reveal_with_fuel(neutral_view, 3);
        reveal_with_fuel(closure_view, 3);
        reveal_with_fuel(dim_closure_view, 3);
    }
    if fuel == 0 {
        return Err(KernelError::OutOfFuel);
    }
    match p {
        Value::VPathLam { dim_closure, .. } => {
            let mut denv2 = crate::value::clone_dims(&dim_closure.dim_env);
            denv2.push(d);
            eval_fuel(&dim_closure.body, &dim_closure.env, &denv2, fuel - 1)
        },
        Value::VNeutral { ty, neutral } => {
            let endpoint: Box<Value> = match &*ty {
                Value::VPath { ty: inner, .. } => Box::new((**inner).clone()),
                _ => Box::new((*ty).clone()),
            };
            Ok(Value::VNeutral {
                ty: endpoint,
                neutral: Neutral::NPathApp { path: Box::new(neutral), dim: d },
            })
        },
        _ => Err(KernelError::TypeMismatch {
            expected: "path".to_owned(),
            got: "non-path value".to_owned(),
        }),
    }
}

impl Closure {
    /// Captures an environment and a body.
    pub fn new(env: Env, body: Expr) -> (r: Self)
        ensures
            r.deep_view() == (crate::value::ClosureV { env: env_view(env@), body: expr_view(body) }),
    {
        proof {
            reveal_with_fuel(closure_view, 2);
        }
        Closure { env, body }
    }

    /// Applies the closure to an argument: evaluates the body in the captured
    /// environment extended with the argument, under the default step budget.
    pub fn apply(&self, arg: Value) -> (r: Result<Value, KernelError>)
        ensures
            kres(
                r,
                eval_s(
                    self.deep_view().body,
                    self.deep_view().env.push(arg.deep_view()),
                    Seq::empty(),
                    (crate::DEFAULT_FUEL - 1) as nat,
                ),
            ),
    {
        let mut env2 = clone_env(&self.env);
        proof {
            crate::value::lemma_env_view_push(env2@, arg);
            reveal_with_fuel(closure_view, 2);
        }
        env2.push(arg);
        let empty_dims: DimEnv = Vec::new();
        eval_fuel(&self.body, &env2, &empty_dims, crate::DEFAULT_FUEL - 1)
    }
}

impl DimClosure {
    /// Captures the environments and a body.
    pub fn new(env: Env, dim_env: DimEnv, body: Expr) -> (r: Self)
        ensures
            r.deep_view() == (crate::value::DimClosureV {
                env: env_view(env@),
                dim_env: dim_env@,
                body: expr_view(body),
            }),
    {
        proof {
            reveal_with_fuel(dim_closure_view, 2);
        }
        DimClosure { env, dim_env, body }
    }

    /// Applies the dimension closure: pushes the dimension into the captured
    /// dimension environment and evaluates the body there.
    pub fn apply(&self, dim: Dim) -> (r: Result<Value, KernelError>)
        ensures
            kres(
                r,
                eval_s(
                    self.deep_view().body,
                    self.deep_view().env,
                    self.deep_view().dim_env.push(dim),
                    (crate::DEFAULT_FUEL - 1) as nat,
                ),
            ),
    {
        let mut denv2 = crate::value::clone_dims(&self.dim_env);
        denv2.push(dim);
        proof {
            reveal_with_fuel(dim_closure_view, 2);
        }
        eval_fuel(&self.body, &self.env, &denv2, crate::DEFAULT_FUEL - 1)
    }
}

impl Value {
    /// Applies a function value to an argument under the default step budget.
    pub fn apply(&self, arg: Value) -> (r: Result<Value, KernelError>)
        ensures
            kres(r, apply_s(self.deep_view(), arg.deep_view(), crate::DEFAULT_FUEL as nat)),
    {
        apply_fuel(self, arg, crate::DEFAULT_FUEL)
    }

    /// Applies a path value to a dimension under the default step budget.
    pub fn apply_path(&self, dim: Dim) -> (r: Result<Value, KernelError>)
        ensures
            kres(r, apply_path_s(self.deep_view(), dim, crate::DEFAULT_FUEL as nat)),
    {
        apply_path_fuel(self.clone(), dim, crate::DEFAULT_FUEL)
    }
}

/// Evaluates an expression in an environment, with an empty dimension
/// environment and the default step budget.
pub fn eval(expr: &Expr, env: &Env) -> (r: Result<Value, KernelError>)
    ensures
        kres(r, eval_s(expr.deep_view(), env_view(env@), Seq::empty(), crate::DEFAULT_FUEL as nat)),
{
    let empty_dims: DimEnv = Vec::new();
    eval_fuel(expr, env, &empty_dims, crate::DEFAULT_FUEL)
}

/// Evaluates an expression under both environments with the default budget.
pub fn eval_with_dims(expr: &Expr, env: &Env, dim_env: &DimEnv) -> (r: Result<Value, KernelError>)
    ensures
        kres(r, eval_s(expr.deep_view(), env_view(env@), dim_env@, crate::DEFAULT_FUEL as nat)),
{
    eval_fuel(expr, env, dim_env, crate::DEFAULT_FUEL)
}

} // verus!
