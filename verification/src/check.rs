//! Bidirectional type checking: `infer` synthesizes a type, `check` verifies
//! an expression against one, falling back to inference plus conversion.

use vstd::prelude::*;

use crate::errors::{ErrKind, KernelError};
use crate::eval::{eval_fuel, eval_s};
use crate::syntax::{expr_view, faces_view, Expr, ExprV, Face, Level, Name};
use crate::value::{
    closure_view, conv_s, env_view, neutral_view, value_view, clone_env, Closure, DimEnv, Env,
    Neutral, Value, ValueV, NeutralV,
};

verus! {

/// The largest differentiability order a smooth path may ask for.  This is a
/// configuration threshold, not a mathematical constraint.
pub const MAX_SMOOTH_ORDER: u32 = 1000;

/// View of a list of names.
pub open spec fn names_view(s: Seq<Name>) -> Seq<Seq<char>>
    decreases s,
{
    if s.len() == 0 {
        Seq::empty()
    } else {
        names_view(s.drop_last()).push(s.last().deep_view())
    }
}

/// Type checking context: types of the bound variables, the matching value
/// environment of neutral variables, and display names.
#[derive(Debug)]
pub struct Context {
    pub types: Vec<Value>,
    pub env: Env,
    pub names: Vec<Name>,
}

/// Mathematical view of a context.
#[verifier::ext_equal]
pub struct CtxV {
    pub types: Seq<ValueV>,
    pub env: Seq<ValueV>,
    pub names: Seq<Seq<char>>,
}

impl DeepView for Context {
    type V = CtxV;

    open spec fn deep_view(&self) -> CtxV {
        CtxV {
            types: env_view(self.types@),
            env: env_view(self.env@),
            names: names_view(self.names@),
        }
    }
}

/// Extension of a context by one binding: the type is recorded and a neutral
/// variable at the new index enters the value environment.
pub open spec fn ctx_extend_s(c: CtxV, name: Seq<char>, ty: ValueV) -> CtxV {
    CtxV {
        types: c.types.push(ty),
        env: c.env.push(
            ValueV::VNeutral {
                ty: Box::new(ty),
                neutral: NeutralV::NVar(name, c.types.len() as u32),
            },
        ),
        names: c.names.push(name),
    }
}

impl Context {
    /// The empty context.
    pub fn new() -> (r: Self)
        ensures
            r.deep_view().types.len() == 0,
            r.deep_view().env.len() == 0,
            r.deep_view().names.len() == 0,
            r.deep_view() == (CtxV {
                types: Seq::<ValueV>::empty(),
                env: Seq::<ValueV>::empty(),
                names: Seq::<Seq<char>>::empty(),
            }),
    {
        Context { types: Vec::new(), env: Env::new(), names: Vec::new() }
    }

    /// Extends the context with one binding, without disturbing the receiver.
    pub fn extend(&self, name: Name, ty: Value) -> (r: Self)
        requires
            self.deep_view().types.len() < u32::MAX as nat,
        ensures
            r.deep_view() == ctx_extend_s(self.deep_view(), name.deep_view(), ty.deep_view()),
    {
        proof {
            crate::value::lemma_env_view(self.types@);
            reveal_with_fuel(value_view, 3);
            reveal_with_fuel(neutral_view, 3);
        }
        let mut types2 = clone_env(&self.types);
        let mut env2 = clone_env(&self.env);
        let mut names2 = clone_names(&self.names);
        let idx = types2.len() as u32;
        let var = Value::VNeutral {
            ty: Box::new(ty.clone()),
            neutral: Neutral::NVar(name.clone(), idx),
        };
        proof {
            crate::value::lemma_env_view_push(types2@, ty);
            crate::value::lemma_env_view_push(env2@, var);
            lemma_names_view_push(names2@, name);
        }
        types2.push(ty);
        env2.push(var);
        names2.push(name);
        Context { types: types2, env: env2, names: names2 }
    }

    /// Looks a variable's type up by de Bruijn index: index 0 is the most
    /// recent binding.
    pub fn lookup(&self, idx: u32) -> (r: Result<Value, KernelError>)
        ensures
            match r {
                Ok(v) => idx < self.deep_view().types.len() && v.deep_view()
                    == self.deep_view().types[self.deep_view().types.len() - 1 - idx],
                Err(e) => idx >= self.deep_view().types.len() && e.kind()
                    == ErrKind::UnboundVariable,
            },
    {
        proof {
            crate::value::lemma_env_view(self.types@);
        }
        if (idx as usize) < self.types.len() {
            Ok(self.types[self.types.len() - 1 - idx as usize].clone())
        } else {
            let mut m = String::new();
            m.append("index ");
            m.append(crate::text::u32_to_string(idx).as_str());
            Err(KernelError::UnboundVariable(m))
        }
    }

    /// The value environment of the context.
    pub fn env(&self) -> (r: &Env)
        ensures
            env_view(r@) == self.deep_view().env,
    {
        &self.env
    }

    /// The number of bindings in scope.
    pub fn len(&self) -> (r: usize)
        ensures
            r == self.deep_view().types.len(),
    {
        proof {
            crate::value::lemma_env_view(self.types@);
        }
        self.types.len()
    }
}

/// `names_view` of a pushed list.
proof fn lemma_names_view_push(s: Seq<Name>, n: Name)
    ensures
        names_view(s.push(n)) == names_view(s).push(n.deep_view()),
{
    assert(s.push(n).drop_last() =~= s);
    assert(s.push(n).last() == n);
}

/// Copies a list of names, keeping its view.
fn clone_names(v: &Vec<Name>) -> (res: Vec<Name>)
    ensures
        names_view(res@) == names_view(v@),
        res@.len() == v@.len(),
{
    let mut out: Vec<Name> = Vec::new();
    let mut i: usize = 0;
    while i < v.len()
        invariant
            i <= v@.len(),
            out@.len() == i,
            forall|j: int|
                0 <= j < i ==> (#[trigger] out@[j]).deep_view() == v@[j].deep_view(),
        decreases v@.len() - i,
    {
        let n = v[i].clone();
        out.push(n);
        i = i + 1;
    }
    proof {
        lemma_names_view_index(v@);
        lemma_names_view_index(out@);
        assert(names_view(out@) =~= names_view(v@));
    }
    out
}

/// Index characterisation of `names_view`.
proof fn lemma_names_view_index(s: Seq<Name>)
    ensures
        names_view(s).len() == s.len(),
        forall|i: int| 0 <= i < s.len() ==> #[trigger] names_view(s)[i] == s[i].deep_view(),
    decreases s,
{
    if s.len() > 0 {
        lemma_names_view_index(s.drop_last());
    }
}

/// The universe level of a type value.
pub open spec fn expect_type_s(v: ValueV) -> Result<Level, ErrKind> {
    match v {
        ValueV::VType(l) => Ok(l),
        _ => Err(ErrKind::TypeMismatch),
    }
}

/// Inference of a type for an expression.
pub open spec fn infer_s(c: CtxV, e: ExprV, fuel: nat) -> Result<ValueV, ErrKind>
    decreases fuel, 0nat,
{
    if fuel == 0 {
        Err(ErrKind::OutOfFuel)
    } else {
        match e {
            ExprV::Type(l) => if l == u32::MAX {
                Err(ErrKind::UniverseLevel)
            } else {
                Ok(ValueV::VType((l + 1) as u32))
            },
            ExprV::Var(_n, i) => if i < c.types.len() {
                Ok(c.types[c.types.len() - 1 - i])
            } else {
                Err(ErrKind::UnboundVariable)
            },
            ExprV::Pi { name, domain, codomain } => match infer_s(c, *domain, (fuel - 1) as nat) {
                Ok(dt) => match expect_type_s(dt) {
                    Ok(dl) => match eval_s(*domain, c.env, Seq::empty(), (fuel - 1) as nat) {
                        Ok(dv) => match infer_s(
                            ctx_extend_s(c, name, dv),
                            *codomain,
                            (fuel - 1) as nat,
                        ) {
                            Ok(ct) => match expect_type_s(ct) {
                                Ok(cl) => Ok(ValueV::VType(if dl >= cl { dl } else { cl })),
                                Err(k) => Err(k),
                            },
                            Err(k) => Err(k),
                        },
                        Err(k) => Err(k),
                    },
                    Err(k) => Err(k),
                },
                Err(k) => Err(k),
            },
            ExprV::App { func, arg } => match infer_s(c, *func, (fuel - 1) as nat) {
                Ok(ft) => match ft {
                    ValueV::VPi { domain, closure, .. } => match check_s(
                        c,
                        *arg,
                        *domain,
                        (fuel - 1) as nat,
                    ) {
                        Ok(_) => match eval_s(*arg, c.env, Seq::empty(), (fuel - 1) as nat) {
                            Ok(av) => eval_s(
                                closure.body,
                                closure.env.push(av),
                                Seq::empty(),
                                (fuel - 1) as nat,
                            ),
                            Err(k) => Err(k),
                        },
                        Err(k) => Err(k),
                    },
                    _ => Err(ErrKind::TypeMismatch),
                },
                Err(k) => Err(k),
            },
            ExprV::Path { ty, left, right } => match infer_s(c, *ty, (fuel - 1) as nat) {
                Ok(tt) => match expect_type_s(tt) {
                    Ok(level) => match eval_s(*ty, c.env, Seq::empty(), (fuel - 1) as nat) {
                        Ok(av) => match check_s(c, *left, av, (fuel - 1) as nat) {
                            Ok(_) => match check_s(c, *right, av, (fuel - 1) as nat) {
                                Ok(_) => Ok(ValueV::VType(level)),
                                Err(k) => Err(k),
                            },
                            Err(k) => Err(k),
                        },
                        Err(k) => Err(k),
                    },
                    Err(k) => Err(k),
                },
                Err(k) => Err(k),
            },
            ExprV::SmoothPath { order, ty, left, right } => match infer_s(c, *ty, (fuel - 1) as nat) {
                Ok(tt) => match expect_type_s(tt) {
                    Ok(level) => match eval_s(*ty, c.env, Seq::empty(), (fuel - 1) as nat) {
                        Ok(av) => match check_s(c, *left, av, (fuel - 1) as nat) {
                            Ok(_) => match check_s(c, *right, av, (fuel - 1) as nat) {
                                Ok(_) => if order > MAX_SMOOTH_ORDER {
                                    Err(ErrKind::SmoothnessViolation)
                                } else {
                                    Ok(ValueV::VType(level))
                                },
                                Err(k) => Err(k),
                            },
                            Err(k) => Err(k),
                        },
                        Err(k) => Err(k),
                    },
                    Err(k) => Err(k),
                },
                Err(k) => Err(k),
            },
            ExprV::PathApp { path, .. } => match infer_s(c, *path, (fuel - 1) as nat) {
                Ok(pt) => match pt {
                    ValueV::VPath { ty, .. } => Ok(*ty),
                    ValueV::VSmoothPath { ty, .. } => Ok(*ty),
                    _ => Err(ErrKind::TypeMismatch),
                },
                Err(k) => Err(k),
            },
            ExprV::Lambda { .. } => Err(ErrKind::CannotInfer),
            ExprV::PathLam { .. } => Err(ErrKind::CannotInfer),
            ExprV::Comp { ty, base, faces } => match infer_s(c, *ty, (fuel - 1) as nat) {
                Ok(tt) => match expect_type_s(tt) {
                    Ok(_) => match eval_s(*ty, c.env, Seq::empty(), (fuel - 1) as nat) {
                        Ok(tv) => match check_s(c, *base, tv, (fuel - 1) as nat) {
                            Ok(_) => match check_faces_s(c, faces, tv, (fuel - 1) as nat) {
                                Ok(_) => Ok(tv),
                                Err(k) => Err(k),
                            },
                            Err(k) => Err(k),
                        },
                        Err(k) => Err(k),
                    },
                    Err(k) => Err(k),
                },
                Err(k) => Err(k),
            },
            ExprV::Coe { ty_fam, base, .. } => match infer_s(c, *ty_fam, (fuel - 1) as nat) {
                Ok(_) => match eval_s(*ty_fam, c.env, Seq::empty(), (fuel - 1) as nat) {
                    Ok(tfv) => match apply_to_dim_s(tfv, (fuel - 1) as nat) {
                        Ok(from_ty) => match check_s(c, *base, from_ty, (fuel - 1) as nat) {
                            Ok(_) => apply_to_dim_s(tfv, (fuel - 1) as nat),
                            Err(k) => Err(k),
                        },
                        Err(k) => Err(k),
                    },
                    Err(k) => Err(k),
                },
                Err(k) => Err(k),
            },
            ExprV::HComp { ty, base, faces } => match infer_s(c, *ty, (fuel - 1) as nat) {
                Ok(tt) => match expect_type_s(tt) {
                    Ok(_) => match eval_s(*ty, c.env, Seq::empty(), (fuel - 1) as nat) {
                        Ok(tv) => match check_s(c, *base, tv, (fuel - 1) as nat) {
                            Ok(_) => match check_faces_s(c, faces, tv, (fuel - 1) as nat) {
                                Ok(_) => Ok(tv),
                                Err(k) => Err(k),
                            },
                            Err(k) => Err(k),
                        },
                        Err(k) => Err(k),
                    },
                    Err(k) => Err(k),
                },
                Err(k) => Err(k),
            },
            _ => Err(ErrKind::CannotInfer),
        }
    }
}

/// Application of a type family to a dimension.  Constant families stand;
/// a lambda family is applied to a placeholder.
pub open spec fn apply_to_dim_s(v: ValueV, fuel: nat) -> Result<ValueV, ErrKind>
    decreases fuel, 1nat,
{
    match v {
        ValueV::VLam { closure, .. } => eval_s(
            closure.body,
            closure.env.push(ValueV::VType(0)),
            Seq::empty(),
            fuel,
        ),
        _ => Ok(v),
    }
}

/// Checking of every face expression of a system against the shared type.
pub open spec fn check_faces_s(
    c: CtxV,
    faces: Seq<(Face, ExprV)>,
    ty: ValueV,
    fuel: nat,
) -> Result<(), ErrKind>
    decreases fuel, faces.len() + 2,
{
    if faces.len() == 0 {
        Ok(())
    } else {
        match check_faces_s(c, faces.drop_last(), ty, fuel) {
            Ok(_) => check_s(c, faces.last().1, ty, fuel),
            Err(k) => Err(k),
        }
    }
}

/// Checking of an expression against an expected type: lambdas against Pi
/// types and path lambdas against path types directly, everything else by
/// inference plus conversion.
pub open spec fn check_s(c: CtxV, e: ExprV, expected: ValueV, fuel: nat) -> Result<(), ErrKind>
    decreases fuel, 1nat,
{
    if fuel == 0 {
        Err(ErrKind::OutOfFuel)
    } else {
        match (e, expected) {
            (ExprV::Lambda { name, body }, ValueV::VPi { domain, closure, .. }) => {
                let var = ValueV::VNeutral {
                    ty: domain,
                    neutral: NeutralV::NVar(name, c.types.len() as u32),
                };
                match eval_s(closure.body, closure.env.push(var), Seq::empty(), (fuel - 1) as nat) {
                    Ok(cod) => check_s(
                        ctx_extend_s(c, name, *domain),
                        *body,
                        cod,
                        (fuel - 1) as nat,
                    ),
                    Err(k) => Err(k),
                }
            },
            (ExprV::PathLam { body, .. }, ValueV::VPath { ty, .. }) => check_s(
                c,
                *body,
                *ty,
                (fuel - 1) as nat,
            ),
            (e2, expected2) => match infer_s(c, e2, fuel) {
                Ok(t) => if conv_s(t, expected2, c.types.len() as u32, fuel) {
                    Ok(())
                } else {
                    Err(ErrKind::TypeMismatch)
                },
                Err(k) => Err(k),
            },
        }
    }
}


/// Relates an executable check result to the mathematical one.
pub open spec fn cres(r: Result<(), KernelError>, s: Result<(), ErrKind>) -> bool {
    match r {
        Ok(_) => s == Ok::<(), ErrKind>(()),
        Err(e) => s == Err::<(), ErrKind>(e.kind()),
    }
}

/// The universe level under a type value.
pub fn expect_type(val: &Value) -> (r: Result<Level, KernelError>)
    ensures
        match r {
            Ok(l) => expect_type_s(val.deep_view()) == Ok::<Level, ErrKind>(l),
            Err(e) => expect_type_s(val.deep_view()) == Err::<Level, ErrKind>(e.kind()),
        },
{
    match val {
        Value::VType(l) => Ok(*l),
        _ => Err(KernelError::TypeMismatch {
            expected: "a universe".to_owned(),
            got: "another value".to_owned(),
        }),
    }
}

/// Mirror of the always-successful well-formedness scan of a face formula.
fn validate_face(face: &Face) -> (r: Result<(), KernelError>)
    ensures
        r is Ok,
    decreases face,
{
    match face {
        Face::Eq(_var, _val) => Ok(()),
        Face::And(f1, f2) => {
            let a = validate_face(f1);
            match a {
                Ok(_) => validate_face(f2),
                Err(e) => Err(e),
            }
        },
        Face::True => Ok(()),
    }
}

/// Infers the type of an expression with an explicit step budget.
#[verifier::rlimit(100)]
pub fn infer_fuel(ctx: &Context, expr: &Expr, fuel: u64) -> (r: Result<Value, KernelError>)
    requires
        ctx.deep_view().types.len() + fuel as nat <= u32::MAX as nat,
    ensures
        crate::eval::kres(r, infer_s(ctx.deep_view(), expr.deep_view(), fuel as nat)),
    decreases fuel, 0nat,
{
    proof {
        reveal_with_fuel(value_view, 3);
        reveal_with_fuel(neutral_view, 3);
        reveal_with_fuel(closure_view, 3);
    }
    if fuel == 0 {
        return Err(KernelError::OutOfFuel);
    }
    match expr {
        Expr::Type(level) => {
            if *level == u32::MAX {
                Err(KernelError::UniverseLevel)
            } else {
                Ok(Value::VType(*level + 1))
            }
        },
        Expr::Var(_name, idx) => ctx.lookup(*idx),
        Expr::Pi { name, domain, codomain } => {
            let domain_ty = match infer_fuel(ctx, domain, fuel - 1) {
                Ok(v) => v,
                Err(e) => {
                    return Err(e);
                },
            };
            let domain_level = match expect_type(&domain_ty) {
                Ok(l) => l,
                Err(e) => {
                    return Err(e);
                },
            };
            let empty_dims: DimEnv = Vec::new();
            let domain_val = match eval_fuel(domain, ctx.env(), &empty_dims, fuel - 1) {
                Ok(v) => v,
                Err(e) => {
                    return Err(e);
                },
            };
            let ctx2 = ctx.extend(name.clone(), domain_val);
            let codomain_ty = match infer_fuel(&ctx2, codomain, fuel - 1) {
                Ok(v) => v,
                Err(e) => {
                    return Err(e);
                },
            };
            let codomain_level = match expect_type(&codomain_ty) {
                Ok(l) => l,
                Err(e) => {
                    return Err(e);
                },
            };
            let level = if domain_level >= codomain_level {
                domain_level
            } else {
                codomain_level
            };
            Ok(Value::VType(level))
        },
        Expr::App { func, arg } => {
            let func_ty = match infer_fuel(ctx, func, fuel - 1) {
                Ok(v) => v,
                Err(e) => {
                    return Err(e);
                },
            };
            match func_ty {
                Value::VPi { domain, closure, .. } => {
                    match check_fuel(ctx, arg, &domain, fuel - 1) {
                        Ok(_) => {},
                        Err(e) => {
                            return Err(e);
                        },
                    };
                    let empty_dims: DimEnv = Vec::new();
                    let arg_val = match eval_fuel(arg, ctx.env(), &empty_dims, fuel - 1) {
                        Ok(v) => v,
                        Err(e) => {
                            return Err(e);
                        },
                    };
                    let mut env2 = clone_env(&closure.env);
                    proof {
                        crate::value::lemma_env_view_push(env2@, arg_val);
                    }
                    env2.push(arg_val);
                    eval_fuel(&closure.body, &env2, &empty_dims, fuel - 1)
                },
                _ => Err(KernelError::TypeMismatch {
                    expected: "a function type".to_owned(),
                    got: "another value".to_owned(),
                }),
            }
        },
        Expr::Path { ty, left, right } => {
            let ty_ty = match infer_fuel(ctx, ty, fuel - 1) {
                Ok(v) => v,
                Err(e) => {
                    return Err(e);
                },
            };
            let level = match expect_type(&ty_ty) {
                Ok(l) => l,
                Err(e) => {
                    return Err(e);
                },
            };
            let empty_dims: DimEnv = Vec::new();
            let a_val = match eval_fuel(ty, ctx.env(), &empty_dims, fuel - 1) {
                Ok(v) => v,
                Err(e) => {
                    return Err(e);
                },
            };
            match check_fuel(ctx, left, &a_val, fuel - 1) {
                Ok(_) => {},
                Err(e) => {
                    return Err(e);
                },
            };
            match check_fuel(ctx, right, &a_val, fuel - 1) {
                Ok(_) => {},
                Err(e) => {
                    return Err(e);
                },
            };
            Ok(Value::VType(level))
        },
        Expr::SmoothPath { order, ty, left, right } => {
            let ty_ty = match infer_fuel(ctx, ty, fuel - 1) {
                Ok(v) => v,
                Err(e) => {
                    return Err(e);
                },
            };
            let level = match expect_type(&ty_ty) {
                Ok(l) => l,
                Err(e) => {
                    return Err(e);
                },
            };
            let empty_dims: DimEnv = Vec::new();
            let a_val = match eval_fuel(ty, ctx.env(), &empty_dims, fuel - 1) {
                Ok(v) => v,
                Err(e) => {
                    return Err(e);
                },
            };
            match check_fuel(ctx, left, &a_val, fuel - 1) {
                Ok(_) => {},
                Err(e) => {
                    return Err(e);
                },
            };
            match check_fuel(ctx, right, &a_val, fuel - 1) {
                Ok(_) => {},
                Err(e) => {
                    return Err(e);
                },
            };
            if *order > MAX_SMOOTH_ORDER {
                return Err(KernelError::SmoothnessViolation {
                    expected: MAX_SMOOTH_ORDER,
                    got: *order,
                });
            }
            Ok(Value::VType(level))
        },
        Expr::PathApp { path, dim: _ } => {
            let path_ty = match infer_fuel(ctx, path, fuel - 1) {
                Ok(v) => v,
                Err(e) => {
                    return Err(e);
                },
            };
            match path_ty {
                Value::VPath { ty, .. } => Ok(*ty),
                Value::VSmoothPath { ty, .. } => Ok(*ty),
                _ => Err(KernelError::TypeMismatch {
                    expected: "a path type".to_owned(),
                    got: "another value".to_owned(),
                }),
            }
        },
        Expr::Lambda { .. } => Err(KernelError::CannotInfer(
            "a lambda requires a type annotation".to_owned(),
        )),
        Expr::PathLam { .. } => Err(KernelError::CannotInfer(
            "a path lambda requires a type annotation".to_owned(),
        )),
        Expr::Comp { ty, base, faces } => {
            let ty_ty = match infer_fuel(ctx, ty, fuel - 1) {
                Ok(v) => v,
                Err(e) => {
                    return Err(e);
                },
            };
            match expect_type(&ty_ty) {
                Ok(_) => {},
                Err(e) => {
                    return Err(e);
                },
            };
            let empty_dims: DimEnv = Vec::new();
            let ty_val = match eval_fuel(ty, ctx.env(), &empty_dims, fuel - 1) {
                Ok(v) => v,
                Err(e) => {
                    return Err(e);
                },
            };
            match check_fuel(ctx, base, &ty_val, fuel - 1) {
                Ok(_) => {},
                Err(e) => {
                    return Err(e);
                },
            };
            match check_face_list(ctx, faces, &ty_val, fuel - 1) {
                Ok(_) => {},
                Err(e) => {
                    return Err(e);
                },
            };
            Ok(ty_val)
        },
        Expr::Coe { ty_fam, from: _, to: _, base } => {
            let _ty_fam_ty = match infer_fuel(ctx, ty_fam, fuel - 1) {
                Ok(v) => v,
                Err(e) => {
                    return Err(e);
                },
            };
            let empty_dims: DimEnv = Vec::new();
            let ty_fam_val = match eval_fuel(ty_fam, ctx.env(), &empty_dims, fuel - 1) {
                Ok(v) => v,
                Err(e) => {
                    return Err(e);
                },
            };
            let from_ty = match apply_to_dim(&ty_fam_val, fuel - 1) {
                Ok(v) => v,
                Err(e) => {
                    return Err(e);
                },
            };
            match check_fuel(ctx, base, &from_ty, fuel - 1) {
                Ok(_) => {},
                Err(e) => {
                    return Err(e);
                },
            };
            apply_to_dim(&ty_fam_val, fuel - 1)
        },
        Expr::HComp { ty, base, faces } => {
            let ty_ty = match infer_fuel(ctx, ty, fuel - 1) {
                Ok(v) => v,
                Err(e) => {
                    return Err(e);
                },
            };
            match expect_type(&ty_ty) {
                Ok(_) => {},
                Err(e) => {
                    return Err(e);
                },
            };
            let empty_dims: DimEnv = Vec::new();
            let ty_val = match eval_fuel(ty, ctx.env(), &empty_dims, fuel - 1) {
                Ok(v) => v,
                Err(e) => {
                    return Err(e);
                },
            };
            match check_fuel(ctx, base, &ty_val, fuel - 1) {
                Ok(_) => {},
                Err(e) => {
                    return Err(e);
                },
            };
            match check_face_list(ctx, faces, &ty_val, fuel - 1) {
                Ok(_) => {},
                Err(e) => {
                    return Err(e);
                },
            };
            Ok(ty_val)
        },
        _ => Err(KernelError::CannotInfer(
            "no inference rule applies to this form".to_owned(),
        )),
    }
}

/// Applies a type family to a placeholder dimension.
fn apply_to_dim(val: &Value, fuel: u64) -> (r: Result<Value, KernelError>)
    ensures
        crate::eval::kres(r, apply_to_dim_s(val.deep_view(), fuel as nat)),
    decreases fuel, 1nat,
{
    proof {
        reveal_with_fuel(value_view, 3);
        reveal_with_fuel(closure_view, 3);
    }
    match val {
        Value::VLam { closure, .. } => {
            let dim_val = Value::VType(0);
            let mut env2 = clone_env(&closure.env);
            proof {
                crate::value::lemma_env_view_push(env2@, dim_val);
            }
            env2.push(dim_val);
            let empty_dims: DimEnv = Vec::new();
            eval_fuel(&closure.body, &env2, &empty_dims, fuel)
        },
        _ => Ok(val.clone()),
    }
}

/// Checks every face expression of a system against the shared type.
fn check_face_list(ctx: &Context, faces: &Vec<(Face, Expr)>, ty: &Value, fuel: u64) -> (r: Result<
    (),
    KernelError,
>)
    requires
        ctx.deep_view().types.len() + fuel as nat <= u32::MAX as nat,
    ensures
        cres(r, check_faces_s(ctx.deep_view(), faces_view(faces@), ty.deep_view(), fuel as nat)),
    decreases fuel, 2nat,
{
    let ghost efv = faces_view(faces@);
    proof {
        crate::syntax::lemma_faces_view(faces@);
        assert(efv.subrange(0, 0) =~= Seq::<(Face, ExprV)>::empty());
    }
    let mut i: usize = 0;
    while i < faces.len()
        invariant
            i <= faces@.len(),
            efv == faces_view(faces@),
            efv.len() == faces@.len(),
            forall|j: int|
                0 <= j < faces@.len() ==> #[trigger] efv[j] == (
                    faces@[j].0,
                    expr_view(faces@[j].1),
                ),
            ctx.deep_view().types.len() + fuel as nat <= u32::MAX as nat,
            check_faces_s(ctx.deep_view(), efv.subrange(0, i as int), ty.deep_view(), fuel as nat)
                == Ok::<(), ErrKind>(()),
        decreases faces@.len() - i,
    {
        proof {
            assert(decreases_to!(faces => faces@));
            assert(decreases_to!(faces@ => faces@[i as int]));
            assert(decreases_to!(faces@[i as int] => faces@[i as int].1));
        }
        match validate_face(&faces[i].0) {
            Ok(_) => {},
            Err(e) => {
                return Err(e);
            },
        };
        match check_fuel(ctx, &faces[i].1, ty, fuel) {
            Ok(_) => {},
            Err(e) => {
                proof {
                    lemma_check_faces_err(
                        ctx.deep_view(),
                        efv,
                        ty.deep_view(),
                        fuel as nat,
                        i as int,
                        e.kind(),
                    );
                }
                return Err(e);
            },
        };
        proof {
            assert(efv.subrange(0, i + 1 as int).drop_last() =~= efv.subrange(0, i as int));
            assert(efv.subrange(0, i + 1 as int).last() == efv[i as int]);
        }
        i = i + 1;
    }
    proof {
        assert(efv.subrange(0, i as int) =~= efv);
    }
    Ok(())
}

/// Errors of a face-system check propagate to the whole system.
proof fn lemma_check_faces_err(
    c: CtxV,
    s: Seq<(Face, ExprV)>,
    ty: ValueV,
    fuel: nat,
    i: int,
    k: ErrKind,
)
    requires
        0 <= i < s.len(),
        check_faces_s(c, s.subrange(0, i), ty, fuel) is Ok,
        check_s(c, s[i].1, ty, fuel) == Err::<(), ErrKind>(k),
    ensures
        check_faces_s(c, s, ty, fuel) == Err::<(), ErrKind>(k),
    decreases s.len(),
{
    if s.len() == i + 1 {
        assert(s.drop_last() =~= s.subrange(0, i));
        assert(s.last() == s[i]);
    } else {
        assert(s.drop_last().subrange(0, i) =~= s.subrange(0, i));
        lemma_check_faces_err(c, s.drop_last(), ty, fuel, i, k);
    }
}

/// Checks an expression against an expected type, with a step budget.
#[verifier::rlimit(100)]
pub fn check_fuel(ctx: &Context, expr: &Expr, expected_ty: &Value, fuel: u64) -> (r: Result<
    (),
    KernelError,
>)
    requires
        ctx.deep_view().types.len() + fuel as nat <= u32::MAX as nat,
    ensures
        cres(r, check_s(ctx.deep_view(), expr.deep_view(), expected_ty.deep_view(), fuel as nat)),
    decreases fuel, 1nat,
{
    proof {
        reveal_with_fuel(value_view, 3);
        reveal_with_fuel(neutral_view, 3);
        reveal_with_fuel(closure_view, 3);
    }
    if fuel == 0 {
        return Err(KernelError::OutOfFuel);
    }
    match (expr, expected_ty) {
        (Expr::Lambda { name, body }, Value::VPi { domain, closure, .. }) => {
            let var = Value::VNeutral {
                ty: Box::new((**domain).clone()),
                neutral: Neutral::NVar(name.clone(), ctx.len() as u32),
            };
            let mut env2 = clone_env(&closure.env);
            proof {
                crate::value::lemma_env_view_push(env2@, var);
            }
            env2.push(var);
            let empty_dims: DimEnv = Vec::new();
            let cod = match eval_fuel(&closure.body, &env2, &empty_dims, fuel - 1) {
                Ok(v) => v,
                Err(e) => {
                    return Err(e);
                },
            };
            let ctx2 = ctx.extend(name.clone(), (**domain).clone());
            check_fuel(&ctx2, body, &cod, fuel - 1)
        },
        (Expr::PathLam { dim: _, body }, Value::VPath { ty, left: _, right: _ }) => check_fuel(
            ctx,
            body,
            ty,
            fuel - 1,
        ),
        _ => {
            let inferred_ty = match infer_fuel(ctx, expr, fuel) {
                Ok(v) => v,
                Err(e) => {
                    return Err(e);
                },
            };
            let level = ctx.len() as u32;
            if inferred_ty.conv_at(expected_ty, level, fuel) {
                Ok(())
            } else {
                Err(KernelError::TypeMismatch {
                    expected: "the stated type".to_owned(),
                    got: "a type that does not convert to it".to_owned(),
                })
            }
        },
    }
}

/// Infers the type of an expression under the default step budget.
pub fn infer(ctx: &Context, expr: &Expr) -> (r: Result<Value, KernelError>)
    requires
        ctx.deep_view().types.len() + crate::DEFAULT_FUEL as nat <= u32::MAX as nat,
    ensures
        crate::eval::kres(
            r,
            infer_s(ctx.deep_view(), expr.deep_view(), crate::DEFAULT_FUEL as nat),
        ),
{
    infer_fuel(ctx, expr, crate::DEFAULT_FUEL)
}

/// Checks an expression against an expected type under the default budget.
pub fn check(ctx: &Context, expr: &Expr, expected_ty: &Value) -> (r: Result<(), KernelError>)
    requires
        ctx.deep_view().types.len() + crate::DEFAULT_FUEL as nat <= u32::MAX as nat,
    ensures
        cres(
            r,
            check_s(
                ctx.deep_view(),
                expr.deep_view(),
                expected_ty.deep_view(),
                crate::DEFAULT_FUEL as nat,
            ),
        ),
{
    check_fuel(ctx, expr, expected_ty, crate::DEFAULT_FUEL)
}


/// Type preservation: whenever `infer` synthesizes a type for an expression,
/// `check` accepts that expression against the synthesized type.  The proof
/// rests on the checker's fallback rule (infer, then convert) together with
/// the reflexivity of conversion.
pub proof fn lemma_type_preservation(c: CtxV, e: ExprV, t: ValueV, fuel: nat)
    requires
        infer_s(c, e, fuel) == Ok::<ValueV, ErrKind>(t),
    ensures
        check_s(c, e, t, fuel) == Ok::<(), ErrKind>(()),
{
    crate::value::lemma_conv_refl(t, c.types.len() as u32, fuel);
}

} // verus!
