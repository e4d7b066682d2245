//! Semantic values produced by evaluation, their closures and neutrals, and
//! definitional equality.

use vstd::prelude::*;

use crate::syntax::{expr_view, DimVar, Expr, ExprV, Level, Name};
use crate::syntax::Dim;

verus! {

/// Environment for term evaluation, indexed by de Bruijn index counted from
/// the end (index 0 is the most recently bound value).
pub type Env = Vec<Value>;

/// Environment of interval substitutions.
pub type DimEnv = Vec<Dim>;

/// Semantic values.
#[derive(Debug)]
pub enum Value {
    /// Universe.
    VType(Level),
    /// Dependent function type: evaluated domain plus codomain closure.
    VPi { name: Name, domain: Box<Value>, closure: Closure },
    /// Function value.
    VLam { name: Name, closure: Closure },
    /// Path type with its endpoints.
    VPath { ty: Box<Value>, left: Box<Value>, right: Box<Value> },
    /// Path abstraction.
    VPathLam { dim: DimVar, dim_closure: DimClosure },
    /// Smooth path type with a differentiability order.
    VSmoothPath { order: u32, ty: Box<Value>, left: Box<Value>, right: Box<Value> },
    /// Stuck computation together with its type.
    VNeutral { ty: Box<Value>, neutral: Neutral },
}

/// A captured environment with an unevaluated body.
#[derive(Debug)]
pub struct Closure {
    pub env: Env,
    pub body: Expr,
}

/// A closure that additionally captures the dimension environment.
#[derive(Debug)]
pub struct DimClosure {
    pub env: Env,
    pub dim_env: DimEnv,
    pub body: Expr,
}

/// Blocked computations.
#[derive(Debug)]
pub enum Neutral {
    /// A variable.
    NVar(Name, u32),
    /// Application of a neutral to a value.
    NApp { func: Box<Neutral>, arg: Box<Value> },
    /// Path application of a neutral to a dimension.
    NPathApp { path: Box<Neutral>, dim: Dim },
    /// Suspended Kan composition.
    NComp { ty: Box<Value>, base: Box<Neutral> },
    /// Suspended coercion.
    NCoe { ty_fam: Box<Value>, from: Dim, to: Dim, base: Box<Neutral> },
}

/// Mathematical view of a value.
#[verifier::ext_equal]
pub enum ValueV {
    VType(Level),
    VPi { name: Seq<char>, domain: Box<ValueV>, closure: ClosureV },
    VLam { name: Seq<char>, closure: ClosureV },
    VPath { ty: Box<ValueV>, left: Box<ValueV>, right: Box<ValueV> },
    VPathLam { dim: DimVar, dim_closure: DimClosureV },
    VSmoothPath { order: u32, ty: Box<ValueV>, left: Box<ValueV>, right: Box<ValueV> },
    VNeutral { ty: Box<ValueV>, neutral: NeutralV },
}

/// View of a closure.
#[verifier::ext_equal]
pub struct ClosureV {
    pub env: Seq<ValueV>,
    pub body: ExprV,
}

/// View of a dimension closure.
#[verifier::ext_equal]
pub struct DimClosureV {
    pub env: Seq<ValueV>,
    pub dim_env: Seq<Dim>,
    pub body: ExprV,
}

/// View of a neutral.
#[verifier::ext_equal]
pub enum NeutralV {
    NVar(Seq<char>, u32),
    NApp { func: Box<NeutralV>, arg: Box<ValueV> },
    NPathApp { path: Box<NeutralV>, dim: Dim },
    NComp { ty: Box<ValueV>, base: Box<NeutralV> },
    NCoe { ty_fam: Box<ValueV>, from: Dim, to: Dim, base: Box<NeutralV> },
}

/// View of an environment.
pub open spec fn env_view(s: Seq<Value>) -> Seq<ValueV>
    decreases s,
{
    if s.len() == 0 {
        Seq::empty()
    } else {
        env_view(s.drop_last()).push(value_view(s.last()))
    }
}

/// Recursive view of a value; `Value::deep_view` is this function.
pub open spec fn value_view(v: Value) -> ValueV
    decreases v,
{
    match v {
        Value::VType(l) => ValueV::VType(l),
        Value::VPi { name, domain, closure } => ValueV::VPi {
            name: name.deep_view(),
            domain: Box::new(value_view(*domain)),
            closure: closure_view(closure),
        },
        Value::VLam { name, closure } => ValueV::VLam {
            name: name.deep_view(),
            closure: closure_view(closure),
        },
        Value::VPath { ty, left, right } => ValueV::VPath {
            ty: Box::new(value_view(*ty)),
            left: Box::new(value_view(*left)),
            right: Box::new(value_view(*right)),
        },
        Value::VPathLam { dim, dim_closure } => ValueV::VPathLam {
            dim: dim,
            dim_closure: dim_closure_view(dim_closure),
        },
        Value::VSmoothPath { order, ty, left, right } => ValueV::VSmoothPath {
            order: order,
            ty: Box::new(value_view(*ty)),
            left: Box::new(value_view(*left)),
            right: Box::new(value_view(*right)),
        },
        Value::VNeutral { ty, neutral } => ValueV::VNeutral {
            ty: Box::new(value_view(*ty)),
            neutral: neutral_view(neutral),
        },
    }
}

/// Recursive view of a closure.
pub open spec fn closure_view(c: Closure) -> ClosureV
    decreases c,
{
    ClosureV { env: env_view(c.env@), body: expr_view(c.body) }
}

/// Recursive view of a dimension closure.
pub open spec fn dim_closure_view(c: DimClosure) -> DimClosureV
    decreases c,
{
    DimClosureV { env: env_view(c.env@), dim_env: c.dim_env@, body: expr_view(c.body) }
}

/// Recursive view of a neutral.
pub open spec fn neutral_view(n: Neutral) -> NeutralV
    decreases n,
{
    match n {
        Neutral::NVar(name, i) => NeutralV::NVar(name.deep_view(), i),
        Neutral::NApp { func, arg } => NeutralV::NApp {
            func: Box::new(neutral_view(*func)),
            arg: Box::new(value_view(*arg)),
        },
        Neutral::NPathApp { path, dim } => NeutralV::NPathApp {
            path: Box::new(neutral_view(*path)),
            dim: dim,
        },
        Neutral::NComp { ty, base } => NeutralV::NComp {
            ty: Box::new(value_view(*ty)),
            base: Box::new(neutral_view(*base)),
        },
        Neutral::NCoe { ty_fam, from, to, base } => NeutralV::NCoe {
            ty_fam: Box::new(value_view(*ty_fam)),
            from: from,
            to: to,
            base: Box::new(neutral_view(*base)),
        },
    }
}

impl DeepView for Value {
    type V = ValueV;

    open spec fn deep_view(&self) -> ValueV {
        value_view(*self)
    }
}

impl DeepView for Neutral {
    type V = NeutralV;

    open spec fn deep_view(&self) -> NeutralV {
        neutral_view(*self)
    }
}

impl DeepView for Closure {
    type V = ClosureV;

    open spec fn deep_view(&self) -> ClosureV {
        closure_view(*self)
    }
}

impl DeepView for DimClosure {
    type V = DimClosureV;

    open spec fn deep_view(&self) -> DimClosureV {
        dim_closure_view(*self)
    }
}

/// Index characterisation of `env_view`.
pub proof fn lemma_env_view(s: Seq<Value>)
    ensures
        env_view(s).len() == s.len(),
        forall|i: int| 0 <= i < s.len() ==> #[trigger] env_view(s)[i] == value_view(s[i]),
    decreases s,
{
    if s.len() > 0 {
        lemma_env_view(s.drop_last());
    }
}

/// `env_view` of a pushed environment.
pub proof fn lemma_env_view_push(s: Seq<Value>, v: Value)
    ensures
        env_view(s.push(v)) == env_view(s).push(value_view(v)),
{
    assert(s.push(v).drop_last() =~= s);
    assert(s.push(v).last() == v);
}

/// Copies an environment, keeping its view.
pub fn clone_env(v: &Vec<Value>) -> (res: Vec<Value>)
    ensures
        env_view(res@) == env_view(v@),
        res@.len() == v@.len(),
    decreases v,
{
    let mut out: Vec<Value> = Vec::new();
    let mut i: usize = 0;
    while i < v.len()
        invariant
            i <= v@.len(),
            out@.len() == i,
            forall|j: int| 0 <= j < i ==> value_view(#[trigger] out@[j]) == value_view(v@[j]),
        decreases v@.len() - i,
    {
        proof {
            assert(decreases_to!(v => v@));
            assert(decreases_to!(v@ => v@[i as int]));
        }
        let e = v[i].clone();
        out.push(e);
        i = i + 1;
    }
    proof {
        lemma_env_view(v@);
        lemma_env_view(out@);
        assert(env_view(out@) =~= env_view(v@));
    }
    out
}

impl Clone for Closure {
    /// Copies the closure, keeping its view.
    fn clone(&self) -> (res: Self)
        ensures
            res.deep_view() == self.deep_view(),
        decreases self,
    {
        Closure { env: clone_env(&self.env), body: self.body.clone() }
    }
}

impl Clone for DimClosure {
    /// Copies the dimension closure, keeping its view.
    fn clone(&self) -> (res: Self)
        ensures
            res.deep_view() == self.deep_view(),
        decreases self,
    {
        let mut dims: Vec<Dim> = Vec::new();
        let mut i: usize = 0;
        while i < self.dim_env.len()
            invariant
                i <= self.dim_env@.len(),
                dims@.len() == i,
                forall|j: int| 0 <= j < i ==> dims@[j] == self.dim_env@[j],
            decreases self.dim_env@.len() - i,
        {
            let d = self.dim_env[i];
            dims.push(d);
            i = i + 1;
        }
        proof {
            assert(dims@ =~= self.dim_env@);
        }
        DimClosure { env: clone_env(&self.env), dim_env: dims, body: self.body.clone() }
    }
}

impl Clone for Value {
    /// Copies the value, keeping its view.
    fn clone(&self) -> (res: Self)
        ensures
            res.deep_view() == self.deep_view(),
        decreases self,
    {
        match self {
            Value::VType(l) => Value::VType(*l),
            Value::VPi { name, domain, closure } => Value::VPi {
                name: name.clone(),
                domain: Box::new((**domain).clone()),
                closure: closure.clone(),
            },
            Value::VLam { name, closure } => Value::VLam {
                name: name.clone(),
                closure: closure.clone(),
            },
            Value::VPath { ty, left, right } => Value::VPath {
                ty: Box::new((**ty).clone()),
                left: Box::new((**left).clone()),
                right: Box::new((**right).clone()),
            },
            Value::VPathLam { dim, dim_closure } => Value::VPathLam {
                dim: *dim,
                dim_closure: dim_closure.clone(),
            },
            Value::VSmoothPath { order, ty, left, right } => Value::VSmoothPath {
                order: *order,
                ty: Box::new((**ty).clone()),
                left: Box::new((**left).clone()),
                right: Box::new((**right).clone()),
            },
            Value::VNeutral { ty, neutral } => Value::VNeutral {
                ty: Box::new((**ty).clone()),
                neutral: neutral.clone(),
            },
        }
    }
}

impl Clone for Neutral {
    /// Copies the neutral, keeping its view.
    fn clone(&self) -> (res: Self)
        ensures
            res.deep_view() == self.deep_view(),
        decreases self,
    {
        match self {
            Neutral::NVar(name, i) => Neutral::NVar(name.clone(), *i),
            Neutral::NApp { func, arg } => Neutral::NApp {
                func: Box::new((**func).clone()),
                arg: Box::new((**arg).clone()),
            },
            Neutral::NPathApp { path, dim } => Neutral::NPathApp {
                path: Box::new((**path).clone()),
                dim: *dim,
            },
            Neutral::NComp { ty, base } => Neutral::NComp {
                ty: Box::new((**ty).clone()),
                base: Box::new((**base).clone()),
            },
            Neutral::NCoe { ty_fam, from, to, base } => Neutral::NCoe {
                ty_fam: Box::new((**ty_fam).clone()),
                from: *from,
                to: *to,
                base: Box::new((**base).clone()),
            },
        }
    }
}

/// Definitional equality of values: structural on heads, and recursive under
/// closures, which are applied to a fresh neutral variable at the given level
/// and compared by their results, with the step budget of the evaluation.
/// Where the budget does not allow the bodies to evaluate, two closures are
/// still equal when they are the same closure, so the relation is reflexive
/// on every value at every budget.
pub open spec fn conv_s(a: ValueV, b: ValueV, lvl: u32, fuel: nat) -> bool
    decreases fuel, a,
{
    match (a, b) {
        (ValueV::VType(l1), ValueV::VType(l2)) => l1 == l2,
        (
            ValueV::VPi { name: n1, domain: d1, closure: c1 },
            ValueV::VPi { domain: d2, closure: c2, .. },
        ) => conv_s(*d1, *d2, lvl, fuel) && conv_closure_s(c1, c2, fresh_var(*d1, n1, lvl), lvl, fuel),
        (
            ValueV::VLam { name: n1, closure: c1 },
            ValueV::VLam { closure: c2, .. },
        ) => conv_closure_s(c1, c2, fresh_var(ValueV::VType(0), n1, lvl), lvl, fuel),
        (
            ValueV::VPath { ty: t1, left: l1, right: r1 },
            ValueV::VPath { ty: t2, left: l2, right: r2 },
        ) => conv_s(*t1, *t2, lvl, fuel) && conv_s(*l1, *l2, lvl, fuel) && conv_s(*r1, *r2, lvl, fuel),
        (
            ValueV::VSmoothPath { order: o1, ty: t1, left: l1, right: r1 },
            ValueV::VSmoothPath { order: o2, ty: t2, left: l2, right: r2 },
        ) => o1 == o2 && conv_s(*t1, *t2, lvl, fuel) && conv_s(*l1, *l2, lvl, fuel)
            && conv_s(*r1, *r2, lvl, fuel),
        (
            ValueV::VPathLam { dim: m1, dim_closure: c1 },
            ValueV::VPathLam { dim: m2, dim_closure: c2 },
        ) => {
            if fuel > 0 {
                match (
                    crate::eval::eval_s(c1.body, c1.env, c1.dim_env.push(Dim::Var(m1)), (fuel - 1) as nat),
                    crate::eval::eval_s(c2.body, c2.env, c2.dim_env.push(Dim::Var(m1)), (fuel - 1) as nat),
                ) {
                    (Ok(v1), Ok(v2)) => conv_s(v1, v2, lvl, (fuel - 1) as nat),
                    _ => m1 == m2 && c1 == c2,
                }
            } else {
                m1 == m2 && c1 == c2
            }
        },
        (ValueV::VNeutral { neutral: n1, .. }, ValueV::VNeutral { neutral: n2, .. }) =>
            conv_neutral_s(n1, n2, lvl, fuel),
        _ => false,
    }
}

/// The fresh neutral variable used to open a closure during conversion.
pub open spec fn fresh_var(ty: ValueV, name: Seq<char>, lvl: u32) -> ValueV {
    ValueV::VNeutral { ty: Box::new(ty), neutral: NeutralV::NVar(name, lvl) }
}

/// Conversion of two closures: both bodies are evaluated under the fresh
/// variable and the results compared one level up; where either evaluation
/// fails (or no budget is left), the closures must be the same.
pub open spec fn conv_closure_s(c1: ClosureV, c2: ClosureV, x: ValueV, lvl: u32, fuel: nat) -> bool
    decreases fuel, c1,
{
    if fuel > 0 {
        match (
            crate::eval::eval_s(c1.body, c1.env.push(x), Seq::empty(), (fuel - 1) as nat),
            crate::eval::eval_s(c2.body, c2.env.push(x), Seq::empty(), (fuel - 1) as nat),
        ) {
            (Ok(v1), Ok(v2)) => conv_s(v1, v2, ((lvl + 1) as u32), (fuel - 1) as nat),
            _ => c1 == c2,
        }
    } else {
        c1 == c2
    }
}

/// Definitional equality of neutral spines.
pub open spec fn conv_neutral_s(a: NeutralV, b: NeutralV, lvl: u32, fuel: nat) -> bool
    decreases fuel, a,
{
    match (a, b) {
        (NeutralV::NVar(n1, i1), NeutralV::NVar(n2, i2)) => n1 == n2 && i1 == i2,
        (NeutralV::NApp { func: f1, arg: a1 }, NeutralV::NApp { func: f2, arg: a2 }) =>
            conv_neutral_s(*f1, *f2, lvl, fuel) && conv_s(*a1, *a2, lvl, fuel),
        (
            NeutralV::NPathApp { path: p1, dim: d1 },
            NeutralV::NPathApp { path: p2, dim: d2 },
        ) => conv_neutral_s(*p1, *p2, lvl, fuel) && d1 == d2,
        (
            NeutralV::NComp { ty: t1, base: b1 },
            NeutralV::NComp { ty: t2, base: b2 },
        ) => conv_s(*t1, *t2, lvl, fuel) && conv_neutral_s(*b1, *b2, lvl, fuel),
        (
            NeutralV::NCoe { ty_fam: t1, from: f1, to: o1, base: b1 },
            NeutralV::NCoe { ty_fam: t2, from: f2, to: o2, base: b2 },
        ) => conv_s(*t1, *t2, lvl, fuel) && f1 == f2 && o1 == o2
            && conv_neutral_s(*b1, *b2, lvl, fuel),
        _ => false,
    }
}

/// Conversion is reflexive: every value converts to itself, at every level
/// and under every step budget.
pub proof fn lemma_conv_refl(v: ValueV, lvl: u32, fuel: nat)
    ensures
        conv_s(v, v, lvl, fuel),
    decreases fuel, v,
{
    match v {
        ValueV::VPi { name, domain, closure } => {
            lemma_conv_refl(*domain, lvl, fuel);
            lemma_conv_closure_refl(closure, fresh_var(*domain, name, lvl), lvl, fuel);
        },
        ValueV::VLam { name, closure } => {
            lemma_conv_closure_refl(closure, fresh_var(ValueV::VType(0), name, lvl), lvl, fuel);
        },
        ValueV::VPath { ty, left, right } => {
            lemma_conv_refl(*ty, lvl, fuel);
            lemma_conv_refl(*left, lvl, fuel);
            lemma_conv_refl(*right, lvl, fuel);
        },
        ValueV::VSmoothPath { ty, left, right, .. } => {
            lemma_conv_refl(*ty, lvl, fuel);
            lemma_conv_refl(*left, lvl, fuel);
            lemma_conv_refl(*right, lvl, fuel);
        },
        ValueV::VPathLam { dim, dim_closure } => {
            if fuel > 0 {
                match crate::eval::eval_s(
                    dim_closure.body,
                    dim_closure.env,
                    dim_closure.dim_env.push(Dim::Var(dim)),
                    (fuel - 1) as nat,
                ) {
                    Ok(v1) => lemma_conv_refl(v1, lvl, (fuel - 1) as nat),
                    _ => {},
                }
            }
        },
        ValueV::VNeutral { neutral, .. } => lemma_conv_refl_neutral(neutral, lvl, fuel),
        _ => {},
    }
}

/// A closure converts to itself under any opening variable.
proof fn lemma_conv_closure_refl(c: ClosureV, x: ValueV, lvl: u32, fuel: nat)
    ensures
        conv_closure_s(c, c, x, lvl, fuel),
    decreases fuel, c,
{
    if fuel > 0 {
        match crate::eval::eval_s(c.body, c.env.push(x), Seq::empty(), (fuel - 1) as nat) {
            Ok(v1) => lemma_conv_refl(v1, ((lvl + 1) as u32), (fuel - 1) as nat),
            _ => {},
        }
    }
}

/// Conversion of neutrals is reflexive.
pub proof fn lemma_conv_refl_neutral(n: NeutralV, lvl: u32, fuel: nat)
    ensures
        conv_neutral_s(n, n, lvl, fuel),
    decreases fuel, n,
{
    match n {
        NeutralV::NApp { func, arg } => {
            lemma_conv_refl_neutral(*func, lvl, fuel);
            lemma_conv_refl(*arg, lvl, fuel);
        },
        NeutralV::NPathApp { path, .. } => lemma_conv_refl_neutral(*path, lvl, fuel),
        NeutralV::NComp { ty, base } => {
            lemma_conv_refl(*ty, lvl, fuel);
            lemma_conv_refl_neutral(*base, lvl, fuel);
        },
        NeutralV::NCoe { ty_fam, base, .. } => {
            lemma_conv_refl(*ty_fam, lvl, fuel);
            lemma_conv_refl_neutral(*base, lvl, fuel);
        },
        _ => {},
    }
}

/// Decides view equality of two environments.
fn env_eq(a: &Vec<Value>, b: &Vec<Value>) -> (r: bool)
    ensures
        r == (env_view(a@) == env_view(b@)),
    decreases a, 1nat,
{
    proof {
        lemma_env_view(a@);
        lemma_env_view(b@);
    }
    if a.len() != b.len() {
        proof {
            assert(env_view(a@).len() != env_view(b@).len());
        }
        return false;
    }
    let mut i: usize = 0;
    while i < a.len()
        invariant
            a@.len() == b@.len(),
            i <= a@.len(),
            env_view(a@).len() == a@.len(),
            env_view(b@).len() == b@.len(),
            forall|j: int| 0 <= j < a@.len() ==> #[trigger] env_view(a@)[j] == value_view(a@[j]),
            forall|j: int| 0 <= j < b@.len() ==> #[trigger] env_view(b@)[j] == value_view(b@[j]),
            forall|j: int| 0 <= j < i ==> env_view(a@)[j] == env_view(b@)[j],
        decreases a@.len() - i,
    {
        proof {
            assert(decreases_to!(a => a@));
            assert(decreases_to!(a@ => a@[i as int]));
        }
        if !value_eq(&a[i], &b[i]) {
            proof {
                assert(env_view(a@)[i as int] != env_view(b@)[i as int]);
            }
            return false;
        }
        i = i + 1;
    }
    proof {
        assert(env_view(a@) =~= env_view(b@));
    }
    true
}

/// Decides view equality of two closures.
fn closure_eq(a: &Closure, b: &Closure) -> (r: bool)
    ensures
        r == (a.deep_view() == b.deep_view()),
    decreases a, 2nat,
{
    proof {
        reveal_with_fuel(closure_view, 2);
    }
    if env_eq(&a.env, &b.env) && crate::syntax::expr_eq(&a.body, &b.body) {
        proof {
            assert(a.deep_view() =~= b.deep_view());
        }
        true
    } else {
        false
    }
}

/// Decides equality of two dimension environments.
fn dims_eq(a: &Vec<Dim>, b: &Vec<Dim>) -> (r: bool)
    ensures
        r == (a@ == b@),
{
    if a.len() != b.len() {
        return false;
    }
    let mut i: usize = 0;
    while i < a.len()
        invariant
            a@.len() == b@.len(),
            i <= a@.len(),
            forall|j: int| 0 <= j < i ==> a@[j] == b@[j],
        decreases a@.len() - i,
    {
        if !crate::syntax::dim_eq(&a[i], &b[i]) {
            return false;
        }
        i = i + 1;
    }
    proof {
        assert(a@ =~= b@);
    }
    true
}

/// Decides view equality of two dimension closures.
fn dim_closure_eq(a: &DimClosure, b: &DimClosure) -> (r: bool)
    ensures
        r == (a.deep_view() == b.deep_view()),
    decreases a, 2nat,
{
    proof {
        reveal_with_fuel(dim_closure_view, 2);
    }
    if env_eq(&a.env, &b.env) && dims_eq(&a.dim_env, &b.dim_env)
        && crate::syntax::expr_eq(&a.body, &b.body) {
        proof {
            assert(a.deep_view() =~= b.deep_view());
        }
        true
    } else {
        false
    }
}

/// Decides view equality of two values.
#[verifier::rlimit(100)]
pub fn value_eq(a: &Value, b: &Value) -> (r: bool)
    ensures
        r == (a.deep_view() == b.deep_view()),
    decreases a, 3nat,
{
    proof {
        reveal_with_fuel(value_view, 2);
        reveal_with_fuel(neutral_view, 2);
    }
    match (a, b) {
        (Value::VType(l1), Value::VType(l2)) => l1 == l2,
        (
            Value::VPi { name: n1, domain: d1, closure: c1 },
            Value::VPi { name: n2, domain: d2, closure: c2 },
        ) => crate::syntax::name_eq(n1, n2) && value_eq(d1, d2) && closure_eq(c1, c2),
        (
            Value::VLam { name: n1, closure: c1 },
            Value::VLam { name: n2, closure: c2 },
        ) => crate::syntax::name_eq(n1, n2) && closure_eq(c1, c2),
        (
            Value::VPath { ty: t1, left: l1, right: r1 },
            Value::VPath { ty: t2, left: l2, right: r2 },
        ) => value_eq(t1, t2) && value_eq(l1, l2) && value_eq(r1, r2),
        (
            Value::VPathLam { dim: m1, dim_closure: c1 },
            Value::VPathLam { dim: m2, dim_closure: c2 },
        ) => m1.0 == m2.0 && dim_closure_eq(c1, c2),
        (
            Value::VSmoothPath { order: o1, ty: t1, left: l1, right: r1 },
            Value::VSmoothPath { order: o2, ty: t2, left: l2, right: r2 },
        ) => o1 == o2 && value_eq(t1, t2) && value_eq(l1, l2) && value_eq(r1, r2),
        (
            Value::VNeutral { ty: t1, neutral: n1 },
            Value::VNeutral { ty: t2, neutral: n2 },
        ) => value_eq(t1, t2) && neutral_eq(n1, n2),
        _ => {
            proof {
                assert(a.deep_view() != b.deep_view());
            }
            false
        },
    }
}

/// Decides view equality of two neutral spines.
fn neutral_eq(a: &Neutral, b: &Neutral) -> (r: bool)
    ensures
        r == (a.deep_view() == b.deep_view()),
    decreases a, 3nat,
{
    proof {
        reveal_with_fuel(value_view, 2);
        reveal_with_fuel(neutral_view, 2);
    }
    match (a, b) {
        (Neutral::NVar(n1, i1), Neutral::NVar(n2, i2)) =>
            crate::syntax::name_eq(n1, n2) && i1 == i2,
        (Neutral::NApp { func: f1, arg: a1 }, Neutral::NApp { func: f2, arg: a2 }) =>
            neutral_eq(f1, f2) && value_eq(a1, a2),
        (
            Neutral::NPathApp { path: p1, dim: d1 },
            Neutral::NPathApp { path: p2, dim: d2 },
        ) => neutral_eq(p1, p2) && crate::syntax::dim_eq(d1, d2),
        (Neutral::NComp { ty: t1, base: b1 }, Neutral::NComp { ty: t2, base: b2 }) =>
            value_eq(t1, t2) && neutral_eq(b1, b2),
        (
            Neutral::NCoe { ty_fam: t1, from: f1, to: o1, base: b1 },
            Neutral::NCoe { ty_fam: t2, from: f2, to: o2, base: b2 },
        ) => value_eq(t1, t2) && crate::syntax::dim_eq(f1, f2) && crate::syntax::dim_eq(o1, o2)
            && neutral_eq(b1, b2),
        _ => {
            proof {
                assert(a.deep_view() != b.deep_view());
            }
            false
        },
    }
}

impl Value {
    /// Decides definitional equality of two closed values, at level zero and
    /// under the default step budget.
    pub fn conv(&self, other: &Value) -> (r: bool)
        ensures
            r == conv_s(self.deep_view(), other.deep_view(), 0, crate::DEFAULT_FUEL as nat),
    {
        self.conv_at(other, 0, crate::DEFAULT_FUEL)
    }

    /// Decides definitional equality of two values at a de Bruijn level, with
    /// a step budget for opening closures.
    #[verifier::rlimit(100)]
    #[verifier::spinoff_prover]
    pub fn conv_at(&self, other: &Value, level: u32, fuel: u64) -> (r: bool)
        requires
            level as nat + fuel as nat <= u32::MAX as nat,
        ensures
            r == conv_s(self.deep_view(), other.deep_view(), level, fuel as nat),
        decreases fuel, self,
    {
        proof {
            reveal_with_fuel(value_view, 2);
        }
        match (self, other) {
            (Value::VType(l1), Value::VType(l2)) => l1 == l2,
            (
                Value::VPi { name: n1, domain: d1, closure: c1 },
                Value::VPi { domain: d2, closure: c2, .. },
            ) => {
                if !d1.conv_at(d2, level, fuel) {
                    return false;
                }
                let x = Value::VNeutral {
                    ty: Box::new((**d1).clone()),
                    neutral: Neutral::NVar(n1.clone(), level),
                };
                proof {
                    reveal_with_fuel(neutral_view, 2);
                    assert(x.deep_view() == fresh_var(d1.deep_view(), n1.deep_view(), level));
                }
                conv_closures(c1, c2, x, level, fuel)
            },
            (
                Value::VLam { name: n1, closure: c1 },
                Value::VLam { closure: c2, .. },
            ) => {
                let x = Value::VNeutral {
                    ty: Box::new(Value::VType(0)),
                    neutral: Neutral::NVar(n1.clone(), level),
                };
                proof {
                    reveal_with_fuel(neutral_view, 2);
                    assert(x.deep_view() == fresh_var(ValueV::VType(0), n1.deep_view(), level));
                }
                conv_closures(c1, c2, x, level, fuel)
            },
            (
                Value::VPath { ty: t1, left: l1, right: r1 },
                Value::VPath { ty: t2, left: l2, right: r2 },
            ) => t1.conv_at(t2, level, fuel) && l1.conv_at(l2, level, fuel)
                && r1.conv_at(r2, level, fuel),
            (
                Value::VSmoothPath { order: o1, ty: t1, left: l1, right: r1 },
                Value::VSmoothPath { order: o2, ty: t2, left: l2, right: r2 },
            ) => o1 == o2 && t1.conv_at(t2, level, fuel) && l1.conv_at(l2, level, fuel)
                && r1.conv_at(r2, level, fuel),
            (
                Value::VPathLam { dim: m1, dim_closure: c1 },
                Value::VPathLam { dim: m2, dim_closure: c2 },
            ) => conv_dim_closures(m1, c1, m2, c2, level, fuel),
            (Value::VNeutral { neutral: n1, .. }, Value::VNeutral { neutral: n2, .. }) =>
                n1.conv_neutral_at(n2, level, fuel),
            _ => false,
        }
    }
}

/// Decides conversion of two path abstractions: both bodies are evaluated at
/// the first one's dimension variable and the results compared.
fn conv_dim_closures(
    m1: &DimVar,
    c1: &DimClosure,
    m2: &DimVar,
    c2: &DimClosure,
    level: u32,
    fuel: u64,
) -> (r: bool)
    requires
        level as nat + fuel as nat <= u32::MAX as nat,
    ensures
        r == conv_s(
            ValueV::VPathLam { dim: *m1, dim_closure: c1.deep_view() },
            ValueV::VPathLam { dim: *m2, dim_closure: c2.deep_view() },
            level,
            fuel as nat,
        ),
    decreases fuel, c1,
{
    proof {
        reveal_with_fuel(dim_closure_view, 2);
    }
    if fuel == 0 {
        return m1.0 == m2.0 && dim_closure_eq(c1, c2);
    }
    let mut denv1 = clone_dims(&c1.dim_env);
    denv1.push(Dim::Var(*m1));
    let mut denv2 = clone_dims(&c2.dim_env);
    denv2.push(Dim::Var(*m1));
    let r1 = crate::eval::eval_fuel(&c1.body, &c1.env, &denv1, fuel - 1);
    let r2 = crate::eval::eval_fuel(&c2.body, &c2.env, &denv2, fuel - 1);
    match (r1, r2) {
        (Ok(v1), Ok(v2)) => v1.conv_at(&v2, level, fuel - 1),
        _ => m1.0 == m2.0 && dim_closure_eq(c1, c2),
    }
}

/// Decides conversion of two closures under the opening variable.
fn conv_closures(c1: &Closure, c2: &Closure, x: Value, level: u32, fuel: u64) -> (r: bool)
    requires
        level as nat + fuel as nat <= u32::MAX as nat,
    ensures
        r == conv_closure_s(c1.deep_view(), c2.deep_view(), x.deep_view(), level, fuel as nat),
    decreases fuel, c1,
{
    proof {
        reveal_with_fuel(closure_view, 2);
    }
    if fuel == 0 {
        proof {
            assert(conv_closure_s(c1.deep_view(), c2.deep_view(), x.deep_view(), level, 0) == (
            c1.deep_view() == c2.deep_view()));
        }
        return closure_eq(c1, c2);
    }
    let xc = x.clone();
    let mut env1 = clone_env(&c1.env);
    proof {
        lemma_env_view_push(env1@, xc);
    }
    env1.push(xc);
    let mut env2 = clone_env(&c2.env);
    proof {
        lemma_env_view_push(env2@, x);
    }
    env2.push(x);
    let empty_dims: Vec<Dim> = Vec::new();
    let r1 = crate::eval::eval_fuel(&c1.body, &env1, &empty_dims, fuel - 1);
    let r2 = crate::eval::eval_fuel(&c2.body, &env2, &empty_dims, fuel - 1);
    proof {
        reveal_with_fuel(closure_view, 2);
    }
    match (r1, r2) {
        (Ok(v1), Ok(v2)) => v1.conv_at(&v2, level + 1, fuel - 1),
        _ => closure_eq(c1, c2),
    }
}

impl Neutral {
    /// Decides definitional equality of two neutral spines at a level.
    #[verifier::rlimit(100)]
    pub fn conv_neutral_at(&self, other: &Neutral, level: u32, fuel: u64) -> (r: bool)
        requires
            level as nat + fuel as nat <= u32::MAX as nat,
        ensures
            r == conv_neutral_s(self.deep_view(), other.deep_view(), level, fuel as nat),
        decreases fuel, self,
    {
        proof {
            reveal_with_fuel(value_view, 3);
            reveal_with_fuel(neutral_view, 3);
        }
        match (self, other) {
            (Neutral::NVar(n1, i1), Neutral::NVar(n2, i2)) =>
                crate::syntax::name_eq(n1, n2) && i1 == i2,
            (Neutral::NApp { func: f1, arg: a1 }, Neutral::NApp { func: f2, arg: a2 }) =>
                f1.conv_neutral_at(f2, level, fuel) && a1.conv_at(a2, level, fuel),
            (
                Neutral::NPathApp { path: p1, dim: d1 },
                Neutral::NPathApp { path: p2, dim: d2 },
            ) => p1.conv_neutral_at(p2, level, fuel) && crate::syntax::dim_eq(d1, d2),
            (Neutral::NComp { ty: t1, base: b1 }, Neutral::NComp { ty: t2, base: b2 }) =>
                t1.conv_at(t2, level, fuel) && b1.conv_neutral_at(b2, level, fuel),
            (
                Neutral::NCoe { ty_fam: t1, from: f1, to: o1, base: b1 },
                Neutral::NCoe { ty_fam: t2, from: f2, to: o2, base: b2 },
            ) => t1.conv_at(t2, level, fuel) && crate::syntax::dim_eq(f1, f2)
                && crate::syntax::dim_eq(o1, o2) && b1.conv_neutral_at(b2, level, fuel),
            _ => false,
        }
    }
}


/// View of an evaluated face system.
pub open spec fn fvals_view(s: Seq<(crate::syntax::Face, Value)>) -> Seq<(crate::syntax::Face, ValueV)>
    decreases s,
{
    if s.len() == 0 {
        Seq::empty()
    } else {
        fvals_view(s.drop_last()).push((s.last().0, value_view(s.last().1)))
    }
}

/// Index characterisation of `fvals_view`.
pub proof fn lemma_fvals_view(s: Seq<(crate::syntax::Face, Value)>)
    ensures
        fvals_view(s).len() == s.len(),
        forall|i: int|
            0 <= i < s.len() ==> #[trigger] fvals_view(s)[i] == (s[i].0, value_view(s[i].1)),
    decreases s,
{
    if s.len() > 0 {
        lemma_fvals_view(s.drop_last());
    }
}


/// Copies a dimension environment.
pub fn clone_dims(v: &Vec<Dim>) -> (res: Vec<Dim>)
    ensures
        res@ == v@,
{
    let mut out: Vec<Dim> = Vec::new();
    let mut i: usize = 0;
    while i < v.len()
        invariant
            i <= v@.len(),
            out@.len() == i,
            forall|j: int| 0 <= j < i ==> out@[j] == v@[j],
        decreases v@.len() - i,
    {
        let d = v[i];
        out.push(d);
        i = i + 1;
    }
    proof {
        assert(out@ =~= v@);
    }
    out
}


/// Copies a list of line identifiers.
pub fn clone_line_ids(v: &Vec<crate::line::LineId>) -> (res: Vec<crate::line::LineId>)
    ensures
        res@ == v@,
{
    let mut out: Vec<crate::line::LineId> = Vec::new();
    let mut i: usize = 0;
    while i < v.len()
        invariant
            i <= v@.len(),
            out@.len() == i,
            forall|j: int| 0 <= j < i ==> out@[j] == v@[j],
        decreases v@.len() - i,
    {
        let d = v[i];
        out.push(d);
        i = i + 1;
    }
    proof {
        assert(out@ =~= v@);
    }
    out
}


/// Copies a list of strings, keeping their characters.
pub fn clone_strings(v: &Vec<String>) -> (res: Vec<String>)
    ensures
        res.deep_view() == v.deep_view(),
        res@.len() == v@.len(),
{
    let mut out: Vec<String> = Vec::new();
    let mut i: usize = 0;
    while i < v.len()
        invariant
            i <= v@.len(),
            out@.len() == i,
            forall|j: int| 0 <= j < i ==> (#[trigger] out@[j])@ == v@[j]@,
        decreases v@.len() - i,
    {
        let st = v[i].clone();
        out.push(st);
        i = i + 1;
    }
    proof {
        assert(out.deep_view() =~= v.deep_view());
    }
    out
}

} // verus!
