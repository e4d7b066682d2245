//! Abstract syntax of the type theory: names, dimensions, face formulas and
//! expressions, together with their mathematical views.

use vstd::prelude::*;

verus! {

/// Universe levels for the type hierarchy.
pub type Level = u32;

/// Names for variables and definitions.
#[derive(Debug, PartialEq, Eq, Hash)]
pub struct Name(pub String);

impl DeepView for Name {
    type V = Seq<char>;

    open spec fn deep_view(&self) -> Seq<char> {
        self.0@
    }
}

/// Dimension variables of the interval.
#[derive(Debug, Clone, Copy, PartialEq, Eq, Hash)]
pub struct DimVar(pub u32);

/// Dimension expressions: a variable or one of the two endpoints.
#[derive(Debug, Clone, Copy, PartialEq, Eq)]
pub enum Dim {
    Var(DimVar),
    Zero,
    One,
}

impl DeepView for Dim {
    type V = Dim;

    open spec fn deep_view(&self) -> Dim {
        *self
    }
}

/// Face formulas (cofibrations) carving out parts of a cube.
#[derive(Debug, PartialEq, Eq)]
pub enum Face {
    /// The dimension variable equals an endpoint (`false` is 0, `true` is 1).
    Eq(DimVar, bool),
    /// Conjunction of two faces.
    And(Box<Face>, Box<Face>),
    /// The trivial face, satisfied everywhere.
    True,
}

impl DeepView for Face {
    type V = Face;

    open spec fn deep_view(&self) -> Face {
        *self
    }
}

/// Expressions of the theory.
#[derive(Debug, PartialEq)]
pub enum Expr {
    /// Universe at a given level.
    Type(Level),
    /// Variable: display name plus de Bruijn index.
    Var(Name, u32),
    /// Dependent function type.
    Pi { name: Name, domain: Box<Expr>, codomain: Box<Expr> },
    /// Lambda abstraction.
    Lambda { name: Name, body: Box<Expr> },
    /// Application.
    App { func: Box<Expr>, arg: Box<Expr> },
    /// Path type between two endpoints.
    Path { ty: Box<Expr>, left: Box<Expr>, right: Box<Expr> },
    /// Path abstraction over a dimension variable.
    PathLam { dim: DimVar, body: Box<Expr> },
    /// Path application at a dimension.
    PathApp { path: Box<Expr>, dim: Dim },
    /// Path carrying a differentiability order.
    SmoothPath { order: u32, ty: Box<Expr>, left: Box<Expr>, right: Box<Expr> },
    /// Kan composition.
    Comp { ty: Box<Expr>, base: Box<Expr>, faces: Vec<(Face, Expr)> },
    /// Coercion along a type family.
    Coe { ty_fam: Box<Expr>, from: Dim, to: Dim, base: Box<Expr> },
    /// Homogeneous composition.
    HComp { ty: Box<Expr>, base: Box<Expr>, faces: Vec<(Face, Expr)> },
    /// Glue types.
    Glue { base: Box<Expr>, equivalences: Vec<(Face, Expr, Expr)> },
    /// Differential operator; reduces as a neutral for now.
    Diff { order: u32, dim: DimVar, expr: Box<Expr> },
    /// Integral operator; reduces as a neutral for now.
    Integral { dim: DimVar, from: Dim, to: Dim, expr: Box<Expr> },
    /// Taylor expansion; reduces as a neutral for now.
    Taylor { order: u32, point: Box<Expr>, expr: Box<Expr> },
}

/// Mathematical view of an expression: names become character sequences and
/// lists become sequences.
#[verifier::ext_equal]
pub enum ExprV {
    Type(Level),
    Var(Seq<char>, u32),
    Pi { name: Seq<char>, domain: Box<ExprV>, codomain: Box<ExprV> },
    Lambda { name: Seq<char>, body: Box<ExprV> },
    App { func: Box<ExprV>, arg: Box<ExprV> },
    Path { ty: Box<ExprV>, left: Box<ExprV>, right: Box<ExprV> },
    PathLam { dim: DimVar, body: Box<ExprV> },
    PathApp { path: Box<ExprV>, dim: Dim },
    SmoothPath { order: u32, ty: Box<ExprV>, left: Box<ExprV>, right: Box<ExprV> },
    Comp { ty: Box<ExprV>, base: Box<ExprV>, faces: Seq<(Face, ExprV)> },
    Coe { ty_fam: Box<ExprV>, from: Dim, to: Dim, base: Box<ExprV> },
    HComp { ty: Box<ExprV>, base: Box<ExprV>, faces: Seq<(Face, ExprV)> },
    Glue { base: Box<ExprV>, equivalences: Seq<(Face, ExprV, ExprV)> },
    Diff { order: u32, dim: DimVar, expr: Box<ExprV> },
    Integral { dim: DimVar, from: Dim, to: Dim, expr: Box<ExprV> },
    Taylor { order: u32, point: Box<ExprV>, expr: Box<ExprV> },
}

/// View of a face system.
pub open spec fn faces_view(s: Seq<(Face, Expr)>) -> Seq<(Face, ExprV)>
    decreases s,
{
    if s.len() == 0 {
        Seq::empty()
    } else {
        faces_view(s.drop_last()).push((s.last().0, expr_view(s.last().1)))
    }
}

/// View of a glue equivalence list.
pub open spec fn equivs_view(s: Seq<(Face, Expr, Expr)>) -> Seq<(Face, ExprV, ExprV)>
    decreases s,
{
    if s.len() == 0 {
        Seq::empty()
    } else {
        equivs_view(s.drop_last()).push(
            (s.last().0, expr_view(s.last().1), expr_view(s.last().2)),
        )
    }
}

/// Recursive view of an expression; `Expr::deep_view` is this function.
pub open spec fn expr_view(e: Expr) -> ExprV
    decreases e,
{
    match e {
        Expr::Type(l) => ExprV::Type(l),
        Expr::Var(n, i) => ExprV::Var(n.deep_view(), i),
        Expr::Pi { name, domain, codomain } => ExprV::Pi {
            name: name.deep_view(),
            domain: Box::new(expr_view(*domain)),
            codomain: Box::new(expr_view(*codomain)),
        },
        Expr::Lambda { name, body } => ExprV::Lambda {
            name: name.deep_view(),
            body: Box::new(expr_view(*body)),
        },
        Expr::App { func, arg } => ExprV::App {
            func: Box::new(expr_view(*func)),
            arg: Box::new(expr_view(*arg)),
        },
        Expr::Path { ty, left, right } => ExprV::Path {
            ty: Box::new(expr_view(*ty)),
            left: Box::new(expr_view(*left)),
            right: Box::new(expr_view(*right)),
        },
        Expr::PathLam { dim, body } => ExprV::PathLam {
            dim: dim,
            body: Box::new(expr_view(*body)),
        },
        Expr::PathApp { path, dim } => ExprV::PathApp {
            path: Box::new(expr_view(*path)),
            dim: dim,
        },
        Expr::SmoothPath { order, ty, left, right } => ExprV::SmoothPath {
            order: order,
            ty: Box::new(expr_view(*ty)),
            left: Box::new(expr_view(*left)),
            right: Box::new(expr_view(*right)),
        },
        Expr::Comp { ty, base, faces } => ExprV::Comp {
            ty: Box::new(expr_view(*ty)),
            base: Box::new(expr_view(*base)),
            faces: faces_view(faces@),
        },
        Expr::Coe { ty_fam, from, to, base } => ExprV::Coe {
            ty_fam: Box::new(expr_view(*ty_fam)),
            from: from,
            to: to,
            base: Box::new(expr_view(*base)),
        },
        Expr::HComp { ty, base, faces } => ExprV::HComp {
            ty: Box::new(expr_view(*ty)),
            base: Box::new(expr_view(*base)),
            faces: faces_view(faces@),
        },
        Expr::Glue { base, equivalences } => ExprV::Glue {
            base: Box::new(expr_view(*base)),
            equivalences: equivs_view(equivalences@),
        },
        Expr::Diff { order, dim, expr } => ExprV::Diff {
            order: order,
            dim: dim,
            expr: Box::new(expr_view(*expr)),
        },
        Expr::Integral { dim, from, to, expr } => ExprV::Integral {
            dim: dim,
            from: from,
            to: to,
            expr: Box::new(expr_view(*expr)),
        },
        Expr::Taylor { order, point, expr } => ExprV::Taylor {
            order: order,
            point: Box::new(expr_view(*point)),
            expr: Box::new(expr_view(*expr)),
        },
    }
}

impl DeepView for Expr {
    type V = ExprV;

    open spec fn deep_view(&self) -> ExprV {
        expr_view(*self)
    }
}

/// Index characterisation of `faces_view`.
pub proof fn lemma_faces_view(s: Seq<(Face, Expr)>)
    ensures
        faces_view(s).len() == s.len(),
        forall|i: int|
            0 <= i < s.len() ==> #[trigger] faces_view(s)[i] == (s[i].0, expr_view(s[i].1)),
    decreases s,
{
    if s.len() > 0 {
        lemma_faces_view(s.drop_last());
    }
}

/// Index characterisation of `equivs_view`.
pub proof fn lemma_equivs_view(s: Seq<(Face, Expr, Expr)>)
    ensures
        equivs_view(s).len() == s.len(),
        forall|i: int|
            0 <= i < s.len() ==> #[trigger] equivs_view(s)[i] == (
                s[i].0,
                expr_view(s[i].1),
                expr_view(s[i].2),
            ),
    decreases s,
{
    if s.len() > 0 {
        lemma_equivs_view(s.drop_last());
    }
}

impl Clone for Name {
    /// Copies the name, keeping its characters.
    fn clone(&self) -> (res: Self)
        ensures
            res.deep_view() == self.deep_view(),
    {
        Name(self.0.clone())
    }
}

impl Clone for Face {
    /// Copies the face formula exactly.
    fn clone(&self) -> (res: Self)
        ensures
            res == *self,
        decreases self,
    {
        match self {
            Face::Eq(v, b) => Face::Eq(DimVar(v.0), *b),
            Face::And(f1, f2) => Face::And(Box::new((**f1).clone()), Box::new((**f2).clone())),
            Face::True => Face::True,
        }
    }
}

impl Clone for Expr {
    /// Copies the expression, keeping its view.
    fn clone(&self) -> (res: Self)
        ensures
            res.deep_view() == self.deep_view(),
        decreases self,
    {
        match self {
            Expr::Type(l) => Expr::Type(*l),
            Expr::Var(n, i) => Expr::Var(n.clone(), *i),
            Expr::Pi { name, domain, codomain } => Expr::Pi {
                name: name.clone(),
                domain: Box::new((**domain).clone()),
                codomain: Box::new((**codomain).clone()),
            },
            Expr::Lambda { name, body } => Expr::Lambda {
                name: name.clone(),
                body: Box::new((**body).clone()),
            },
            Expr::App { func, arg } => Expr::App {
                func: Box::new((**func).clone()),
                arg: Box::new((**arg).clone()),
            },
            Expr::Path { ty, left, right } => Expr::Path {
                ty: Box::new((**ty).clone()),
                left: Box::new((**left).clone()),
                right: Box::new((**right).clone()),
            },
            Expr::PathLam { dim, body } => Expr::PathLam {
                dim: *dim,
                body: Box::new((**body).clone()),
            },
            Expr::PathApp { path, dim } => Expr::PathApp {
                path: Box::new((**path).clone()),
                dim: *dim,
            },
            Expr::SmoothPath { order, ty, left, right } => Expr::SmoothPath {
                order: *order,
                ty: Box::new((**ty).clone()),
                left: Box::new((**left).clone()),
                right: Box::new((**right).clone()),
            },
            Expr::Comp { ty, base, faces } => Expr::Comp {
                ty: Box::new((**ty).clone()),
                base: Box::new((**base).clone()),
                faces: clone_faces(faces),
            },
            Expr::Coe { ty_fam, from, to, base } => Expr::Coe {
                ty_fam: Box::new((**ty_fam).clone()),
                from: *from,
                to: *to,
                base: Box::new((**base).clone()),
            },
            Expr::HComp { ty, base, faces } => Expr::HComp {
                ty: Box::new((**ty).clone()),
                base: Box::new((**base).clone()),
                faces: clone_faces(faces),
            },
            Expr::Glue { base, equivalences } => Expr::Glue {
                base: Box::new((**base).clone()),
                equivalences: clone_equivs(equivalences),
            },
            Expr::Diff { order, dim, expr } => Expr::Diff {
                order: *order,
                dim: *dim,
                expr: Box::new((**expr).clone()),
            },
            Expr::Integral { dim, from, to, expr } => Expr::Integral {
                dim: *dim,
                from: *from,
                to: *to,
                expr: Box::new((**expr).clone()),
            },
            Expr::Taylor { order, point, expr } => Expr::Taylor {
                order: *order,
                point: Box::new((**point).clone()),
                expr: Box::new((**expr).clone()),
            },
        }
    }
}

/// Copies a face system, keeping its view.
fn clone_faces(v: &Vec<(Face, Expr)>) -> (res: Vec<(Face, Expr)>)
    ensures
        faces_view(res@) == faces_view(v@),
        res@.len() == v@.len(),
    decreases v,
{
    let mut out: Vec<(Face, Expr)> = Vec::new();
    let mut i: usize = 0;
    proof {
        lemma_faces_view(v@);
        lemma_faces_view(out@);
    }
    while i < v.len()
        invariant
            i <= v@.len(),
            out@.len() == i,
            forall|j: int|
                0 <= j < i ==> #[trigger] out@[j].0 == v@[j].0 && expr_view(out@[j].1)
                    == expr_view(v@[j].1),
        decreases v@.len() - i,
    {
        proof {
            assert(decreases_to!(v => v@));
            assert(decreases_to!(v@ => v@[i as int]));
            assert(decreases_to!(v@[i as int] => v@[i as int].1));
        }
        let face = v[i].0.clone();
        let e = v[i].1.clone();
        out.push((face, e));
        i = i + 1;
    }
    proof {
        lemma_faces_view(v@);
        lemma_faces_view(out@);
        assert(faces_view(out@) =~= faces_view(v@));
    }
    out
}

/// Copies a glue equivalence list, keeping its view.
fn clone_equivs(v: &Vec<(Face, Expr, Expr)>) -> (res: Vec<(Face, Expr, Expr)>)
    ensures
        equivs_view(res@) == equivs_view(v@),
        res@.len() == v@.len(),
    decreases v,
{
    let mut out: Vec<(Face, Expr, Expr)> = Vec::new();
    let mut i: usize = 0;
    while i < v.len()
        invariant
            i <= v@.len(),
            out@.len() == i,
            forall|j: int|
                0 <= j < i ==> #[trigger] out@[j].0 == v@[j].0 && expr_view(out@[j].1)
                    == expr_view(v@[j].1) && expr_view(out@[j].2) == expr_view(v@[j].2),
        decreases v@.len() - i,
    {
        proof {
            assert(decreases_to!(v => v@));
            assert(decreases_to!(v@ => v@[i as int]));
            assert(decreases_to!(v@[i as int] => v@[i as int].1));
            assert(decreases_to!(v@[i as int] => v@[i as int].2));
        }
        let face = v[i].0.clone();
        let e1 = v[i].1.clone();
        let e2 = v[i].2.clone();
        out.push((face, e1, e2));
        i = i + 1;
    }
    proof {
        lemma_equivs_view(v@);
        lemma_equivs_view(out@);
        assert(equivs_view(out@) =~= equivs_view(v@));
    }
    out
}

/// Executable equality of names, specified over their views.
pub fn name_eq(a: &Name, b: &Name) -> (r: bool)
    ensures
        r == (a.deep_view() == b.deep_view()),
{
    a.0 == b.0
}

/// Executable equality of dimensions.
pub fn dim_eq(a: &Dim, b: &Dim) -> (r: bool)
    ensures
        r == (*a == *b),
{
    match (a, b) {
        (Dim::Zero, Dim::Zero) => true,
        (Dim::One, Dim::One) => true,
        (Dim::Var(v), Dim::Var(w)) => v.0 == w.0,
        _ => false,
    }
}


/// The number of binders substitution can push under along its recursion.
pub open spec fn subst_depth(e: ExprV) -> nat
    decreases e,
{
    match e {
        ExprV::Pi { domain, codomain, .. } => {
            let d = subst_depth(*domain);
            let c = 1 + subst_depth(*codomain);
            if d >= c {
                d
            } else {
                c
            }
        },
        ExprV::Lambda { body, .. } => 1 + subst_depth(*body),
        ExprV::App { func, arg } => max2(subst_depth(*func), subst_depth(*arg)),
        ExprV::Path { ty, left, right } => max2(
            subst_depth(*ty),
            max2(subst_depth(*left), subst_depth(*right)),
        ),
        ExprV::PathLam { body, .. } => subst_depth(*body),
        ExprV::PathApp { path, .. } => subst_depth(*path),
        ExprV::SmoothPath { ty, left, right, .. } => max2(
            subst_depth(*ty),
            max2(subst_depth(*left), subst_depth(*right)),
        ),
        ExprV::Comp { ty, base, faces } => max2(
            subst_depth(*ty),
            max2(subst_depth(*base), faces_depth(faces)),
        ),
        ExprV::HComp { ty, base, faces } => max2(
            subst_depth(*ty),
            max2(subst_depth(*base), faces_depth(faces)),
        ),
        ExprV::Coe { ty_fam, base, .. } => max2(subst_depth(*ty_fam), subst_depth(*base)),
        ExprV::Glue { base, equivalences } => max2(
            subst_depth(*base),
            equivs_depth(equivalences),
        ),
        ExprV::Diff { expr, .. } => subst_depth(*expr),
        ExprV::Integral { expr, .. } => subst_depth(*expr),
        ExprV::Taylor { point, expr, .. } => max2(subst_depth(*point), subst_depth(*expr)),
        _ => 0,
    }
}

/// The larger of two naturals.
pub open spec fn max2(a: nat, b: nat) -> nat {
    if a >= b {
        a
    } else {
        b
    }
}

/// The binder depth of a face system's expressions.
pub open spec fn faces_depth(s: Seq<(Face, ExprV)>) -> nat
    decreases s,
{
    if s.len() == 0 {
        0
    } else {
        max2(faces_depth(s.drop_last()), subst_depth(s.last().1))
    }
}

/// The binder depth of a glue equivalence list's expressions.
pub open spec fn equivs_depth(s: Seq<(Face, ExprV, ExprV)>) -> nat
    decreases s,
{
    if s.len() == 0 {
        0
    } else {
        max2(
            equivs_depth(s.drop_last()),
            max2(subst_depth(s.last().1), subst_depth(s.last().2)),
        )
    }
}

/// Capture-avoiding substitution of a replacement for the variable at the
/// given de Bruijn level; the level rises under term binders (a Pi codomain
/// or a lambda body).  Substitution is total over every variant: it descends
/// into the Kan forms, glue and the smooth operators, whose dimension
/// binders bind no term variable, so the level stands there.
pub open spec fn subst_s(e: ExprV, level: nat, repl: ExprV) -> ExprV
    decreases e,
{
    match e {
        ExprV::Type(l) => ExprV::Type(l),
        ExprV::Var(n, i) => if i == level {
            repl
        } else {
            ExprV::Var(n, i)
        },
        ExprV::Pi { name, domain, codomain } => ExprV::Pi {
            name: name,
            domain: Box::new(subst_s(*domain, level, repl)),
            codomain: Box::new(subst_s(*codomain, level + 1, repl)),
        },
        ExprV::Lambda { name, body } => ExprV::Lambda {
            name: name,
            body: Box::new(subst_s(*body, level + 1, repl)),
        },
        ExprV::App { func, arg } => ExprV::App {
            func: Box::new(subst_s(*func, level, repl)),
            arg: Box::new(subst_s(*arg, level, repl)),
        },
        ExprV::Path { ty, left, right } => ExprV::Path {
            ty: Box::new(subst_s(*ty, level, repl)),
            left: Box::new(subst_s(*left, level, repl)),
            right: Box::new(subst_s(*right, level, repl)),
        },
        ExprV::PathLam { dim, body } => ExprV::PathLam {
            dim: dim,
            body: Box::new(subst_s(*body, level, repl)),
        },
        ExprV::PathApp { path, dim } => ExprV::PathApp {
            path: Box::new(subst_s(*path, level, repl)),
            dim: dim,
        },
        ExprV::SmoothPath { order, ty, left, right } => ExprV::SmoothPath {
            order: order,
            ty: Box::new(subst_s(*ty, level, repl)),
            left: Box::new(subst_s(*left, level, repl)),
            right: Box::new(subst_s(*right, level, repl)),
        },
        ExprV::Comp { ty, base, faces } => ExprV::Comp {
            ty: Box::new(subst_s(*ty, level, repl)),
            base: Box::new(subst_s(*base, level, repl)),
            faces: subst_faces_s(faces, level, repl),
        },
        ExprV::HComp { ty, base, faces } => ExprV::HComp {
            ty: Box::new(subst_s(*ty, level, repl)),
            base: Box::new(subst_s(*base, level, repl)),
            faces: subst_faces_s(faces, level, repl),
        },
        ExprV::Coe { ty_fam, from, to, base } => ExprV::Coe {
            ty_fam: Box::new(subst_s(*ty_fam, level, repl)),
            from: from,
            to: to,
            base: Box::new(subst_s(*base, level, repl)),
        },
        ExprV::Glue { base, equivalences } => ExprV::Glue {
            base: Box::new(subst_s(*base, level, repl)),
            equivalences: subst_equivs_s(equivalences, level, repl),
        },
        ExprV::Diff { order, dim, expr } => ExprV::Diff {
            order: order,
            dim: dim,
            expr: Box::new(subst_s(*expr, level, repl)),
        },
        ExprV::Integral { dim, from, to, expr } => ExprV::Integral {
            dim: dim,
            from: from,
            to: to,
            expr: Box::new(subst_s(*expr, level, repl)),
        },
        ExprV::Taylor { order, point, expr } => ExprV::Taylor {
            order: order,
            point: Box::new(subst_s(*point, level, repl)),
            expr: Box::new(subst_s(*expr, level, repl)),
        },
    }
}

/// Substitution through every expression of a face system.
pub open spec fn subst_faces_s(s: Seq<(Face, ExprV)>, level: nat, repl: ExprV) -> Seq<(Face, ExprV)>
    decreases s,
{
    if s.len() == 0 {
        Seq::empty()
    } else {
        subst_faces_s(s.drop_last(), level, repl).push(
            (s.last().0, subst_s(s.last().1, level, repl)),
        )
    }
}

/// Substitution through every expression of a glue equivalence list.
pub open spec fn subst_equivs_s(
    s: Seq<(Face, ExprV, ExprV)>,
    level: nat,
    repl: ExprV,
) -> Seq<(Face, ExprV, ExprV)>
    decreases s,
{
    if s.len() == 0 {
        Seq::empty()
    } else {
        subst_equivs_s(s.drop_last(), level, repl).push(
            (
                s.last().0,
                subst_s(s.last().1, level, repl),
                subst_s(s.last().2, level, repl),
            ),
        )
    }
}

/// Index characterisation of `subst_faces_s`.
pub proof fn lemma_subst_faces(s: Seq<(Face, ExprV)>, level: nat, repl: ExprV)
    ensures
        subst_faces_s(s, level, repl).len() == s.len(),
        forall|i: int|
            0 <= i < s.len() ==> #[trigger] subst_faces_s(s, level, repl)[i] == (
                s[i].0,
                subst_s(s[i].1, level, repl),
            ),
    decreases s,
{
    if s.len() > 0 {
        lemma_subst_faces(s.drop_last(), level, repl);
    }
}

/// Index characterisation of `subst_equivs_s`.
pub proof fn lemma_subst_equivs(s: Seq<(Face, ExprV, ExprV)>, level: nat, repl: ExprV)
    ensures
        subst_equivs_s(s, level, repl).len() == s.len(),
        forall|i: int|
            0 <= i < s.len() ==> #[trigger] subst_equivs_s(s, level, repl)[i] == (
                s[i].0,
                subst_s(s[i].1, level, repl),
                subst_s(s[i].2, level, repl),
            ),
    decreases s,
{
    if s.len() > 0 {
        lemma_subst_equivs(s.drop_last(), level, repl);
    }
}

/// Index bound of `faces_depth`.
proof fn lemma_faces_depth(s: Seq<(Face, ExprV)>)
    ensures
        forall|i: int| 0 <= i < s.len() ==> subst_depth((#[trigger] s[i]).1) <= faces_depth(s),
    decreases s,
{
    if s.len() > 0 {
        lemma_faces_depth(s.drop_last());
        assert forall|i: int|
            0 <= i < s.len() implies subst_depth((#[trigger] s[i]).1) <= faces_depth(s) by {
            if i < s.len() - 1 {
                assert(s.drop_last()[i] == s[i]);
            } else {
                assert(s[i] == s.last());
            }
        }
    }
}

/// Index bound of `equivs_depth`.
proof fn lemma_equivs_depth(s: Seq<(Face, ExprV, ExprV)>)
    ensures
        forall|i: int|
            0 <= i < s.len() ==> subst_depth((#[trigger] s[i]).1) <= equivs_depth(s)
                && subst_depth(s[i].2) <= equivs_depth(s),
    decreases s,
{
    if s.len() > 0 {
        lemma_equivs_depth(s.drop_last());
        assert forall|i: int|
            0 <= i < s.len() implies subst_depth((#[trigger] s[i]).1) <= equivs_depth(s)
                && subst_depth(s[i].2) <= equivs_depth(s) by {
            if i < s.len() - 1 {
                assert(s.drop_last()[i] == s[i]);
            } else {
                assert(s[i] == s.last());
            }
        }
    }
}

/// The candidates `fresh` tries, in order: the base itself, then the base
/// with each decimal suffix.
pub open spec fn fresh_cand_s(base: Seq<char>, i: nat) -> Seq<char> {
    if i == 0 {
        base
    } else {
        base + crate::text::dec_digits(i)
    }
}

/// Whether a name with these characters occurs in the list.
pub open spec fn name_listed(s: Seq<Name>, n: Seq<char>) -> bool {
    exists|k: int| 0 <= k < s.len() && (#[trigger] s[k]).deep_view() == n
}

/// The candidates are pairwise distinct.
proof fn lemma_fresh_cand_injective(base: Seq<char>, i: nat, j: nat)
    requires
        i != j,
    ensures
        fresh_cand_s(base, i) != fresh_cand_s(base, j),
{
    if i == 0 {
        crate::text::lemma_dec_len_pos(j);
        assert(fresh_cand_s(base, j).len() > base.len());
    } else if j == 0 {
        crate::text::lemma_dec_len_pos(i);
        assert(fresh_cand_s(base, i).len() > base.len());
    } else {
        if fresh_cand_s(base, i) == fresh_cand_s(base, j) {
            crate::text::lemma_dec_injective(i, j);
            let di = crate::text::dec_digits(i);
            let dj = crate::text::dec_digits(j);
            assert((base + di).len() == (base + dj).len());
            assert(di.len() == dj.len());
            assert(di =~= (base + di).subrange(base.len() as int, (base + di).len() as int));
            assert(dj =~= (base + dj).subrange(base.len() as int, (base + dj).len() as int));
            assert(false);
        }
    }
}

/// A list cannot contain every one of the first `len + 1` candidates: the
/// candidates are pairwise distinct, so they outnumber the entries and one
/// of them is free.
proof fn lemma_fresh_free_candidate(avoid: Seq<Name>, base: Seq<char>)
    ensures
        exists|j: int|
            0 <= j <= avoid.len() && !name_listed(
                avoid,
                #[trigger] fresh_cand_s(base, j as nat),
            ),
    decreases avoid.len(),
{
    if forall|j: int|
        0 <= j <= avoid.len() ==> name_listed(avoid, #[trigger] fresh_cand_s(base, j as nat)) {
        let m = avoid.len() as int;
        assert(name_listed(avoid, fresh_cand_s(base, m as nat)));
        let k = choose|k: int|
            0 <= k < avoid.len() && (#[trigger] avoid[k]).deep_view() == fresh_cand_s(
                base,
                m as nat,
            );
        let avoid2 = avoid.remove(k);
        assert forall|j: int|
            0 <= j <= avoid2.len() implies name_listed(
            avoid2,
            #[trigger] fresh_cand_s(base, j as nat),
        ) by {
            assert(name_listed(avoid, fresh_cand_s(base, j as nat)));
            let kj = choose|kj: int|
                0 <= kj < avoid.len() && (#[trigger] avoid[kj]).deep_view() == fresh_cand_s(
                    base,
                    j as nat,
                );
            if kj == k {
                lemma_fresh_cand_injective(base, j as nat, m as nat);
                assert(false);
            }
            if kj < k {
                assert(avoid2[kj] == avoid[kj]);
            } else {
                assert(avoid2[kj - 1] == avoid[kj]);
            }
        }
        lemma_fresh_free_candidate(avoid2, base);
        let j0 = choose|j0: int|
            0 <= j0 <= avoid2.len() && !name_listed(
                avoid2,
                #[trigger] fresh_cand_s(base, j0 as nat),
            );
        assert(name_listed(avoid2, fresh_cand_s(base, j0 as nat)));
        assert(false);
    }
}

impl Name {
    /// A name built from the base that is absent from the avoid list: the
    /// first free candidate among the base and the base with each decimal
    /// suffix in ascending order, or, past those, a name longer than every
    /// listed one.
    pub fn fresh(base: &str, avoid: &[Name]) -> (r: Name)
        requires
            avoid@.len() < usize::MAX as nat,
        ensures
            forall|i: int|
                0 <= i < avoid@.len() ==> (#[trigger] avoid@[i]).deep_view() != r.deep_view(),
            exists|i: int|
                #![trigger fresh_cand_s(base@, i as nat)]
                0 <= i <= avoid@.len() && r.deep_view() == fresh_cand_s(base@, i as nat) && (
                forall|j: int|
                    0 <= j < i ==> name_listed(avoid@, #[trigger] fresh_cand_s(base@, j as nat))),
    {
        let mut i: usize = 0;
        let n = avoid.len();
        while i <= n
            invariant
                i <= n + 1,
                n == avoid@.len(),
                n < usize::MAX,
                forall|j: int|
                    0 <= j < i ==> name_listed(avoid@, #[trigger] fresh_cand_s(base@, j as nat)),
            decreases n + 1 - i,
        {
            let candidate = if i == 0 {
                Name(base.to_owned())
            } else {
                let mut s = base.to_owned();
                s.append(crate::text::u64_to_string(i as u64).as_str());
                Name(s)
            };
            proof {
                assert(candidate.deep_view() == fresh_cand_s(base@, i as nat));
            }
            if !name_in(avoid, &candidate) {
                proof {
                    let wi: int = i as int;
                    assert(0 <= wi <= avoid@.len());
                    assert(candidate.deep_view() == fresh_cand_s(base@, wi as nat));
                    assert(forall|j: int|
                        0 <= j < wi ==> name_listed(
                            avoid@,
                            #[trigger] fresh_cand_s(base@, j as nat),
                        ));
                }
                return candidate;
            }
            i = i + 1;
        }
        // The loop has tried more candidates than the list holds entries,
        // so one of them was free and the loop has already returned.
        proof {
            lemma_fresh_free_candidate(avoid@, base@);
        }
        // Dead fall-back path, kept to satisfy the flow of control.
        let mut longest: usize = 0;
        let mut j: usize = 0;
        while j < avoid.len()
            invariant
                n == avoid@.len(),
                j <= n,
                forall|k: int| 0 <= k < j ==> (#[trigger] avoid@[k]).deep_view().len() <= longest,
            decreases n - j,
        {
            let l = avoid[j].0.as_str().unicode_len();
            if l > longest {
                longest = l;
            }
            j = j + 1;
        }
        let mut s = base.to_owned();
        let mut extra: usize = 0;
        while extra < longest
            invariant
                extra <= longest,
                s@.len() >= extra,
            decreases longest - extra,
        {
            proof {
                reveal_strlit("x");
            }
            s.append("x");
            extra = extra + 1;
        }
        proof {
            reveal_strlit("x");
        }
        s.append("x");
        proof {
            assert(s@.len() > longest);
        }
        Name(s)
    }
}

/// Whether a name with the same characters occurs in the list.
fn name_in(avoid: &[Name], candidate: &Name) -> (r: bool)
    ensures
        r == exists|i: int|
            0 <= i < avoid@.len() && (#[trigger] avoid@[i]).deep_view() == candidate.deep_view(),
{
    let mut i: usize = 0;
    while i < avoid.len()
        invariant
            i <= avoid@.len(),
            forall|k: int|
                0 <= k < i ==> (#[trigger] avoid@[k]).deep_view() != candidate.deep_view(),
        decreases avoid@.len() - i,
    {
        if name_eq(&avoid[i], candidate) {
            return true;
        }
        i = i + 1;
    }
    false
}

impl Expr {
    /// A non-dependent function type.
    pub fn arrow(domain: Expr, codomain: Expr) -> (r: Expr)
        ensures
            r.deep_view() == (ExprV::Pi {
                name: "_"@,
                domain: Box::new(domain.deep_view()),
                codomain: Box::new(codomain.deep_view()),
            }),
    {
        proof {
            reveal_with_fuel(expr_view, 2);
        }
        Expr::Pi {
            name: Name("_".to_owned()),
            domain: Box::new(domain),
            codomain: Box::new(codomain),
        }
    }

    /// Substitutes a replacement for the variable at the given level.
    pub fn subst(&self, level: u32, replacement: &Expr) -> (r: Expr)
        requires
            level as nat + subst_depth(self.deep_view()) <= u32::MAX as nat,
        ensures
            r.deep_view() == subst_s(self.deep_view(), level as nat, replacement.deep_view()),
        decreases self,
    {
        proof {
            reveal_with_fuel(expr_view, 2);
        }
        match self {
            Expr::Type(l) => Expr::Type(*l),
            Expr::Var(name, idx) => {
                if *idx == level {
                    replacement.clone()
                } else {
                    Expr::Var(name.clone(), *idx)
                }
            },
            Expr::Pi { name, domain, codomain } => Expr::Pi {
                name: name.clone(),
                domain: Box::new(domain.subst(level, replacement)),
                codomain: Box::new(codomain.subst(level + 1, replacement)),
            },
            Expr::Lambda { name, body } => Expr::Lambda {
                name: name.clone(),
                body: Box::new(body.subst(level + 1, replacement)),
            },
            Expr::App { func, arg } => Expr::App {
                func: Box::new(func.subst(level, replacement)),
                arg: Box::new(arg.subst(level, replacement)),
            },
            Expr::Path { ty, left, right } => Expr::Path {
                ty: Box::new(ty.subst(level, replacement)),
                left: Box::new(left.subst(level, replacement)),
                right: Box::new(right.subst(level, replacement)),
            },
            Expr::PathLam { dim, body } => Expr::PathLam {
                dim: *dim,
                body: Box::new(body.subst(level, replacement)),
            },
            Expr::PathApp { path, dim } => Expr::PathApp {
                path: Box::new(path.subst(level, replacement)),
                dim: *dim,
            },
            Expr::SmoothPath { order, ty, left, right } => Expr::SmoothPath {
                order: *order,
                ty: Box::new(ty.subst(level, replacement)),
                left: Box::new(left.subst(level, replacement)),
                right: Box::new(right.subst(level, replacement)),
            },
            Expr::Comp { ty, base, faces } => Expr::Comp {
                ty: Box::new(ty.subst(level, replacement)),
                base: Box::new(base.subst(level, replacement)),
                faces: subst_face_list(faces, level, replacement),
            },
            Expr::HComp { ty, base, faces } => Expr::HComp {
                ty: Box::new(ty.subst(level, replacement)),
                base: Box::new(base.subst(level, replacement)),
                faces: subst_face_list(faces, level, replacement),
            },
            Expr::Coe { ty_fam, from, to, base } => Expr::Coe {
                ty_fam: Box::new(ty_fam.subst(level, replacement)),
                from: *from,
                to: *to,
                base: Box::new(base.subst(level, replacement)),
            },
            Expr::Glue { base, equivalences } => Expr::Glue {
                base: Box::new(base.subst(level, replacement)),
                equivalences: subst_equiv_list(equivalences, level, replacement),
            },
            Expr::Diff { order, dim, expr } => Expr::Diff {
                order: *order,
                dim: *dim,
                expr: Box::new(expr.subst(level, replacement)),
            },
            Expr::Integral { dim, from, to, expr } => Expr::Integral {
                dim: *dim,
                from: *from,
                to: *to,
                expr: Box::new(expr.subst(level, replacement)),
            },
            Expr::Taylor { order, point, expr } => Expr::Taylor {
                order: *order,
                point: Box::new(point.subst(level, replacement)),
                expr: Box::new(expr.subst(level, replacement)),
            },
        }
    }
}

/// Substitutes through every expression of a face system.
fn subst_face_list(faces: &Vec<(Face, Expr)>, level: u32, replacement: &Expr) -> (r: Vec<(Face, Expr)>)
    requires
        level as nat + faces_depth(faces_view(faces@)) <= u32::MAX as nat,
    ensures
        faces_view(r@) == subst_faces_s(faces_view(faces@), level as nat, replacement.deep_view()),
    decreases faces,
{
    let ghost fv = faces_view(faces@);
    proof {
        lemma_faces_view(faces@);
        lemma_faces_depth(fv);
        lemma_subst_faces(fv, level as nat, replacement.deep_view());
    }
    let mut out: Vec<(Face, Expr)> = Vec::new();
    let mut i: usize = 0;
    while i < faces.len()
        invariant
            i <= faces@.len(),
            fv == faces_view(faces@),
            fv.len() == faces@.len(),
            forall|j: int| 0 <= j < faces@.len() ==> #[trigger] fv[j] == (
                faces@[j].0,
                expr_view(faces@[j].1),
            ),
            level as nat + faces_depth(fv) <= u32::MAX as nat,
            forall|j: int| 0 <= j < fv.len() ==> subst_depth((#[trigger] fv[j]).1) <= faces_depth(fv),
            out@.len() == i,
            forall|j: int|
                0 <= j < i ==> #[trigger] out@[j].0 == faces@[j].0 && expr_view(out@[j].1)
                    == subst_s(expr_view(faces@[j].1), level as nat, replacement.deep_view()),
        decreases faces@.len() - i,
    {
        proof {
            assert(decreases_to!(faces => faces@));
            assert(decreases_to!(faces@ => faces@[i as int]));
            assert(decreases_to!(faces@[i as int] => faces@[i as int].1));
            assert(fv[i as int] == (faces@[i as int].0, expr_view(faces@[i as int].1)));
            assert(subst_depth(fv[i as int].1) <= faces_depth(fv));
        }
        let face = faces[i].0.clone();
        let e = faces[i].1.subst(level, replacement);
        out.push((face, e));
        i = i + 1;
    }
    proof {
        lemma_faces_view(out@);
        lemma_subst_faces(fv, level as nat, replacement.deep_view());
        assert(faces_view(out@) =~= subst_faces_s(fv, level as nat, replacement.deep_view()));
    }
    out
}

/// Substitutes through every expression of a glue equivalence list.
fn subst_equiv_list(
    v: &Vec<(Face, Expr, Expr)>,
    level: u32,
    replacement: &Expr,
) -> (r: Vec<(Face, Expr, Expr)>)
    requires
        level as nat + equivs_depth(equivs_view(v@)) <= u32::MAX as nat,
    ensures
        equivs_view(r@) == subst_equivs_s(equivs_view(v@), level as nat, replacement.deep_view()),
    decreases v,
{
    let ghost ev = equivs_view(v@);
    proof {
        lemma_equivs_view(v@);
        lemma_equivs_depth(ev);
        lemma_subst_equivs(ev, level as nat, replacement.deep_view());
    }
    let mut out: Vec<(Face, Expr, Expr)> = Vec::new();
    let mut i: usize = 0;
    while i < v.len()
        invariant
            i <= v@.len(),
            ev == equivs_view(v@),
            ev.len() == v@.len(),
            forall|j: int| 0 <= j < v@.len() ==> #[trigger] ev[j] == (
                v@[j].0,
                expr_view(v@[j].1),
                expr_view(v@[j].2),
            ),
            level as nat + equivs_depth(ev) <= u32::MAX as nat,
            forall|j: int|
                0 <= j < ev.len() ==> subst_depth((#[trigger] ev[j]).1) <= equivs_depth(ev)
                    && subst_depth(ev[j].2) <= equivs_depth(ev),
            out@.len() == i,
            forall|j: int|
                0 <= j < i ==> #[trigger] out@[j].0 == v@[j].0 && expr_view(out@[j].1)
                    == subst_s(expr_view(v@[j].1), level as nat, replacement.deep_view())
                    && expr_view(out@[j].2) == subst_s(
                    expr_view(v@[j].2),
                    level as nat,
                    replacement.deep_view(),
                ),
        decreases v@.len() - i,
    {
        proof {
            assert(decreases_to!(v => v@));
            assert(decreases_to!(v@ => v@[i as int]));
            assert(decreases_to!(v@[i as int] => v@[i as int].1));
            assert(decreases_to!(v@[i as int] => v@[i as int].2));
            assert(ev[i as int] == (v@[i as int].0, expr_view(v@[i as int].1), expr_view(
                v@[i as int].2,
            )));
            assert(subst_depth(ev[i as int].1) <= equivs_depth(ev));
            assert(subst_depth(ev[i as int].2) <= equivs_depth(ev));
        }
        let face = v[i].0.clone();
        let e1 = v[i].1.subst(level, replacement);
        let e2 = v[i].2.subst(level, replacement);
        out.push((face, e1, e2));
        i = i + 1;
    }
    proof {
        lemma_equivs_view(out@);
        lemma_subst_equivs(ev, level as nat, replacement.deep_view());
        assert(equivs_view(out@) =~= subst_equivs_s(ev, level as nat, replacement.deep_view()));
    }
    out
}

/// Decides structural equality of expressions, over their views.
#[verifier::rlimit(100)]
pub fn expr_eq(a: &Expr, b: &Expr) -> (r: bool)
    ensures
        r == (a.deep_view() == b.deep_view()),
    decreases a, 0nat,
{
    proof {
        reveal_with_fuel(expr_view, 2);
    }
    match (a, b) {
        (Expr::Type(l1), Expr::Type(l2)) => l1 == l2,
        (Expr::Var(n1, i1), Expr::Var(n2, i2)) => name_eq(n1, n2) && i1 == i2,
        (
            Expr::Pi { name: n1, domain: d1, codomain: c1 },
            Expr::Pi { name: n2, domain: d2, codomain: c2 },
        ) => name_eq(n1, n2) && expr_eq(d1, d2) && expr_eq(c1, c2),
        (Expr::Lambda { name: n1, body: b1 }, Expr::Lambda { name: n2, body: b2 }) => name_eq(
            n1,
            n2,
        ) && expr_eq(b1, b2),
        (Expr::App { func: f1, arg: a1 }, Expr::App { func: f2, arg: a2 }) => expr_eq(f1, f2)
            && expr_eq(a1, a2),
        (
            Expr::Path { ty: t1, left: l1, right: r1 },
            Expr::Path { ty: t2, left: l2, right: r2 },
        ) => expr_eq(t1, t2) && expr_eq(l1, l2) && expr_eq(r1, r2),
        (Expr::PathLam { dim: d1, body: b1 }, Expr::PathLam { dim: d2, body: b2 }) => d1.0 == d2.0
            && expr_eq(b1, b2),
        (Expr::PathApp { path: p1, dim: d1 }, Expr::PathApp { path: p2, dim: d2 }) => expr_eq(
            p1,
            p2,
        ) && dim_eq(d1, d2),
        (
            Expr::SmoothPath { order: o1, ty: t1, left: l1, right: r1 },
            Expr::SmoothPath { order: o2, ty: t2, left: l2, right: r2 },
        ) => o1 == o2 && expr_eq(t1, t2) && expr_eq(l1, l2) && expr_eq(r1, r2),
        (
            Expr::Comp { ty: t1, base: b1, faces: f1 },
            Expr::Comp { ty: t2, base: b2, faces: f2 },
        ) => expr_eq(t1, t2) && expr_eq(b1, b2) && faces_eq(f1, f2),
        (
            Expr::Coe { ty_fam: t1, from: fr1, to: to1, base: b1 },
            Expr::Coe { ty_fam: t2, from: fr2, to: to2, base: b2 },
        ) => expr_eq(t1, t2) && dim_eq(fr1, fr2) && dim_eq(to1, to2) && expr_eq(b1, b2),
        (
            Expr::HComp { ty: t1, base: b1, faces: f1 },
            Expr::HComp { ty: t2, base: b2, faces: f2 },
        ) => expr_eq(t1, t2) && expr_eq(b1, b2) && faces_eq(f1, f2),
        (
            Expr::Glue { base: b1, equivalences: e1 },
            Expr::Glue { base: b2, equivalences: e2 },
        ) => expr_eq(b1, b2) && equivs_eq(e1, e2),
        (
            Expr::Diff { order: o1, dim: d1, expr: e1 },
            Expr::Diff { order: o2, dim: d2, expr: e2 },
        ) => o1 == o2 && d1.0 == d2.0 && expr_eq(e1, e2),
        (
            Expr::Integral { dim: d1, from: fr1, to: to1, expr: e1 },
            Expr::Integral { dim: d2, from: fr2, to: to2, expr: e2 },
        ) => d1.0 == d2.0 && dim_eq(fr1, fr2) && dim_eq(to1, to2) && expr_eq(e1, e2),
        (
            Expr::Taylor { order: o1, point: p1, expr: e1 },
            Expr::Taylor { order: o2, point: p2, expr: e2 },
        ) => o1 == o2 && expr_eq(p1, p2) && expr_eq(e1, e2),
        _ => {
            proof {
                assert(a.deep_view() != b.deep_view());
            }
            false
        },
    }
}

/// Decides structural equality of face formulas.
pub fn face_eq(a: &Face, b: &Face) -> (r: bool)
    ensures
        r == (*a == *b),
    decreases a,
{
    match (a, b) {
        (Face::Eq(v1, b1), Face::Eq(v2, b2)) => v1.0 == v2.0 && b1 == b2,
        (Face::And(x1, y1), Face::And(x2, y2)) => face_eq(x1, x2) && face_eq(y1, y2),
        (Face::True, Face::True) => true,
        _ => false,
    }
}

/// Decides structural equality of face systems.
fn faces_eq(a: &Vec<(Face, Expr)>, b: &Vec<(Face, Expr)>) -> (r: bool)
    ensures
        r == (faces_view(a@) == faces_view(b@)),
    decreases a, 1nat,
{
    proof {
        lemma_faces_view(a@);
        lemma_faces_view(b@);
    }
    if a.len() != b.len() {
        proof {
            assert(faces_view(a@).len() != faces_view(b@).len());
        }
        return false;
    }
    let mut i: usize = 0;
    while i < a.len()
        invariant
            a@.len() == b@.len(),
            i <= a@.len(),
            faces_view(a@).len() == a@.len(),
            faces_view(b@).len() == b@.len(),
            forall|j: int|
                0 <= j < a@.len() ==> #[trigger] faces_view(a@)[j] == (
                    a@[j].0,
                    expr_view(a@[j].1),
                ),
            forall|j: int|
                0 <= j < b@.len() ==> #[trigger] faces_view(b@)[j] == (
                    b@[j].0,
                    expr_view(b@[j].1),
                ),
            forall|j: int| 0 <= j < i ==> faces_view(a@)[j] == faces_view(b@)[j],
        decreases a@.len() - i,
    {
        proof {
            assert(decreases_to!(a => a@));
            assert(decreases_to!(a@ => a@[i as int]));
            assert(decreases_to!(a@[i as int] => a@[i as int].1));
        }
        if !face_eq(&a[i].0, &b[i].0) {
            proof {
                assert(faces_view(a@)[i as int] != faces_view(b@)[i as int]);
            }
            return false;
        }
        if !expr_eq(&a[i].1, &b[i].1) {
            proof {
                assert(faces_view(a@)[i as int] != faces_view(b@)[i as int]);
            }
            return false;
        }
        i = i + 1;
    }
    proof {
        assert(faces_view(a@) =~= faces_view(b@));
    }
    true
}

/// Decides structural equality of glue equivalence lists.
fn equivs_eq(a: &Vec<(Face, Expr, Expr)>, b: &Vec<(Face, Expr, Expr)>) -> (r: bool)
    ensures
        r == (equivs_view(a@) == equivs_view(b@)),
    decreases a, 1nat,
{
    proof {
        lemma_equivs_view(a@);
        lemma_equivs_view(b@);
    }
    if a.len() != b.len() {
        proof {
            assert(equivs_view(a@).len() != equivs_view(b@).len());
        }
        return false;
    }
    let mut i: usize = 0;
    while i < a.len()
        invariant
            a@.len() == b@.len(),
            i <= a@.len(),
            equivs_view(a@).len() == a@.len(),
            equivs_view(b@).len() == b@.len(),
            forall|j: int|
                0 <= j < a@.len() ==> #[trigger] equivs_view(a@)[j] == (
                    a@[j].0,
                    expr_view(a@[j].1),
                    expr_view(a@[j].2),
                ),
            forall|j: int|
                0 <= j < b@.len() ==> #[trigger] equivs_view(b@)[j] == (
                    b@[j].0,
                    expr_view(b@[j].1),
                    expr_view(b@[j].2),
                ),
            forall|j: int| 0 <= j < i ==> equivs_view(a@)[j] == equivs_view(b@)[j],
        decreases a@.len() - i,
    {
        proof {
            assert(decreases_to!(a => a@));
            assert(decreases_to!(a@ => a@[i as int]));
            assert(decreases_to!(a@[i as int] => a@[i as int].1));
            assert(decreases_to!(a@[i as int] => a@[i as int].2));
        }
        if !face_eq(&a[i].0, &b[i].0) {
            proof {
                assert(equivs_view(a@)[i as int] != equivs_view(b@)[i as int]);
            }
            return false;
        }
        if !expr_eq(&a[i].1, &b[i].1) {
            proof {
                assert(equivs_view(a@)[i as int] != equivs_view(b@)[i as int]);
            }
            return false;
        }
        if !expr_eq(&a[i].2, &b[i].2) {
            proof {
                assert(equivs_view(a@)[i as int] != equivs_view(b@)[i as int]);
            }
            return false;
        }
        i = i + 1;
    }
    proof {
        assert(equivs_view(a@) =~= equivs_view(b@));
    }
    true
}

} // verus!
