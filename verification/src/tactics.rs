//! Tactics: goal transformers with proof builders, the built-in library, and
//! tactics taking an argument.

use vstd::prelude::*;

use crate::check::{check_s, infer_s};
use crate::errors::{EngineErrKind, EngineError};
use crate::goals::{Goal, GoalId, GoalState, Hypothesis, goals_view, hyps_view, lemma_hyps_view};
use crate::normalize::normalize_s;
use crate::syntax::{Expr, ExprV, Name};
use crate::value::{Value, ValueV};

verus! {

/// The outcome of applying a tactic.
#[derive(Debug)]
pub enum TacticResult {
    /// The tactic applied: the new subgoals and a builder combining their
    /// proofs into a proof of the original goal.
    Success { subgoals: Vec<Goal>, proof_builder: ProofBuilder },
    /// The tactic did not apply; the reason is given.
    Failure(String),
}

/// Builds a proof term of the original goal from the subgoal proofs.
#[derive(Debug)]
pub struct ProofBuilder {
    /// How the subgoal proofs combine.
    pub builder_fn: ProofBuilderFn,
}

/// The supported combinations.
#[derive(Debug)]
pub enum ProofBuilderFn {
    /// The subproof is the proof.
    Identity,
    /// Wrap the subproof in a lambda.
    Lambda(Name),
    /// Apply a function to the subproof.
    Apply(Box<Expr>),
    /// A combination not yet supported.
    Custom(String),
}

/// View of a proof builder.
#[verifier::ext_equal]
pub enum BuilderV {
    Identity,
    Lambda(Seq<char>),
    Apply(ExprV),
    Custom(Seq<char>),
}

impl DeepView for ProofBuilder {
    type V = BuilderV;

    open spec fn deep_view(&self) -> BuilderV {
        match self.builder_fn {
            ProofBuilderFn::Identity => BuilderV::Identity,
            ProofBuilderFn::Lambda(ref n) => BuilderV::Lambda(n.deep_view()),
            ProofBuilderFn::Apply(ref e) => BuilderV::Apply(e.deep_view()),
            ProofBuilderFn::Custom(ref s) => BuilderV::Custom(s@),
        }
    }
}

/// What a builder produces from one subproof.
pub open spec fn build_one_s(b: BuilderV, sub: ExprV) -> Option<ExprV> {
    match b {
        BuilderV::Identity => Some(sub),
        BuilderV::Lambda(name) => Some(ExprV::Lambda { name: name, body: Box::new(sub) }),
        BuilderV::Apply(f) => Some(ExprV::App { func: Box::new(f), arg: Box::new(sub) }),
        BuilderV::Custom(_) => None,
    }
}

impl ProofBuilder {
    /// The identity builder.
    pub fn identity() -> (r: Self)
        ensures
            r.deep_view() == BuilderV::Identity,
    {
        ProofBuilder { builder_fn: ProofBuilderFn::Identity }
    }

    /// The lambda-wrapping builder.
    pub fn lambda(name: Name) -> (r: Self)
        ensures
            r.deep_view() == BuilderV::Lambda(name.deep_view()),
    {
        ProofBuilder { builder_fn: ProofBuilderFn::Lambda(name) }
    }

    /// The application builder.
    pub fn apply(term: Expr) -> (r: Self)
        ensures
            r.deep_view() == BuilderV::Apply(term.deep_view()),
    {
        ProofBuilder { builder_fn: ProofBuilderFn::Apply(Box::new(term)) }
    }

    /// Combines the subgoal proofs: every supported builder takes exactly one
    /// subproof.
    pub fn build(&self, subproofs: &[Expr]) -> (r: Result<Expr, EngineError>)
        ensures
            match r {
                Ok(e) => subproofs@.len() == 1 && build_one_s(
                    self.deep_view(),
                    subproofs@[0].deep_view(),
                ) == Some(e.deep_view()),
                Err(err) => (subproofs@.len() != 1 || build_one_s(
                    self.deep_view(),
                    subproofs@[0].deep_view(),
                ) is None) && err.kind() == EngineErrKind::TacticFailed,
            },
    {
        proof {
            reveal_with_fuel(crate::syntax::expr_view, 2);
        }
        if subproofs.len() != 1 {
            let mut m = String::new();
            m.append("the builder expects exactly one subproof");
            return Err(EngineError::TacticFailed(m));
        }
        match &self.builder_fn {
            ProofBuilderFn::Identity => Ok(subproofs[0].clone()),
            ProofBuilderFn::Lambda(name) => Ok(Expr::Lambda {
                name: name.clone(),
                body: Box::new(subproofs[0].clone()),
            }),
            ProofBuilderFn::Apply(term) => Ok(Expr::App {
                func: Box::new((**term).clone()),
                arg: Box::new(subproofs[0].clone()),
            }),
            ProofBuilderFn::Custom(desc) => {
                let mut m = String::new();
                m.append("this builder is not supported: ");
                m.append(desc.as_str());
                Err(EngineError::TacticFailed(m))
            },
        }
    }
}

/// The built-in tactics.
#[derive(Debug, Clone, Copy, PartialEq, Eq, Structural)]
pub enum BuiltinTactic {
    /// Introduce a lambda for a function goal.
    Intro,
    /// Close the goal with a given term (needs an argument).
    Exact,
    /// Apply a given function to the goal (needs an argument).
    Apply,
    /// Close the goal with a matching hypothesis.
    Assumption,
    /// Close a path goal whose two sides are equal.
    Refl,
}

/// Whether a hypothesis type matches the proposition in a context: both
/// evaluate there and the values are definitionally equal, so hypotheses
/// that differ from the goal only up to conversion still close it.
pub open spec fn hyp_matches(c: crate::check::CtxV, ty: ExprV, prop: ExprV) -> bool {
    &&& crate::eval::eval_s(prop, c.env, Seq::empty(), crate::DEFAULT_FUEL as nat) matches Ok(pv)
    &&& crate::eval::eval_s(ty, c.env, Seq::empty(), crate::DEFAULT_FUEL as nat) matches Ok(tv)
    &&& crate::value::conv_s(
        crate::eval::eval_s(ty, c.env, Seq::empty(), crate::DEFAULT_FUEL as nat)->Ok_0,
        crate::eval::eval_s(prop, c.env, Seq::empty(), crate::DEFAULT_FUEL as nat)->Ok_0,
        c.types.len() as u32,
        crate::DEFAULT_FUEL as nat,
    )
}

/// The first hypothesis whose type converts to the proposition in the
/// context, scanning in order.
pub open spec fn first_matching_hyp(
    c: crate::check::CtxV,
    hyps: Seq<crate::goals::HypV>,
    prop: ExprV,
) -> Option<int>
    decreases hyps.len(),
{
    if hyps.len() == 0 {
        None
    } else if hyp_matches(c, hyps[0].ty, prop) {
        Some(0)
    } else {
        match first_matching_hyp(c, hyps.skip(1), prop) {
            Some(i) => Some(i + 1),
            None => None,
        }
    }
}

impl BuiltinTactic {
    /// The tactic's name.
    pub fn name(&self) -> (r: &'static str)
        ensures
            r@ == self.name_s(),
    {
        proof {
            reveal_strlit("intro");
            reveal_strlit("exact");
            reveal_strlit("apply");
            reveal_strlit("assumption");
            reveal_strlit("refl");
        }
        match self {
            BuiltinTactic::Intro => "intro",
            BuiltinTactic::Exact => "exact",
            BuiltinTactic::Apply => "apply",
            BuiltinTactic::Assumption => "assumption",
            BuiltinTactic::Refl => "refl",
        }
    }

    /// The tactic's name, mathematically.
    pub open spec fn name_s(&self) -> Seq<char> {
        match self {
            BuiltinTactic::Intro => "intro"@,
            BuiltinTactic::Exact => "exact"@,
            BuiltinTactic::Apply => "apply"@,
            BuiltinTactic::Assumption => "assumption"@,
            BuiltinTactic::Refl => "refl"@,
        }
    }

    /// A one-line description of the tactic.
    pub fn description(&self) -> &'static str {
        match self {
            BuiltinTactic::Intro => "introduce a lambda abstraction for a function goal",
            BuiltinTactic::Exact => "solve the goal with an exact proof term",
            BuiltinTactic::Apply => "apply a function to the goal",
            BuiltinTactic::Assumption => "solve the goal using a hypothesis from the context",
            BuiltinTactic::Refl => "prove reflexivity of a path whose sides are equal",
        }
    }

    /// Applies the tactic to a goal.  `intro` splits a function goal into
    /// its codomain under a new hypothesis; `assumption` closes a goal whose
    /// proposition equals a hypothesis type; `refl` closes a path goal with
    /// equal sides; `exact` and `apply` need an argument and fail here.
    pub fn apply_tactic(&self, goal_state: &GoalState) -> (r: TacticResult)
        requires
            goal_state.context.deep_view().types.len() + (crate::DEFAULT_FUEL as nat)
                <= u32::MAX as nat,
        ensures
            match self {
                BuiltinTactic::Intro => intro_result_ok(goal_state, r),
                BuiltinTactic::Assumption => assumption_result_ok(goal_state, r),
                BuiltinTactic::Refl => refl_result_ok(goal_state, r),
                _ => r is Failure,
            },
    {
        match self {
            BuiltinTactic::Intro => intro_tactic(goal_state),
            BuiltinTactic::Exact => {
                let mut m = String::new();
                m.append("exact: a proof term argument is required");
                TacticResult::Failure(m)
            },
            BuiltinTactic::Apply => {
                let mut m = String::new();
                m.append("apply: a function argument is required");
                TacticResult::Failure(m)
            },
            BuiltinTactic::Assumption => assumption_tactic(goal_state),
            BuiltinTactic::Refl => refl_tactic(goal_state),
        }
    }
}

/// What a correct `intro` outcome is.
pub open spec fn intro_result_ok(goal_state: &GoalState, r: TacticResult) -> bool {
    match r {
        TacticResult::Success { subgoals, proof_builder } => {
            &&& goal_state.goal.deep_view().proposition matches ExprV::Pi { name, domain, codomain }
            &&& goals_view(subgoals@).len() == 1
            &&& goals_view(subgoals@)[0].proposition == *codomain
            &&& goals_view(subgoals@)[0].hypotheses == seq![
                crate::goals::HypV { name: name, ty: *domain, body: None },
            ] + goal_state.goal.deep_view().hypotheses
            &&& proof_builder.deep_view() == BuilderV::Lambda(name)
        },
        TacticResult::Failure(_) => !(goal_state.goal.deep_view().proposition is Pi),
    }
}

/// What a correct `assumption` outcome is.
pub open spec fn assumption_result_ok(goal_state: &GoalState, r: TacticResult) -> bool {
    match r {
        TacticResult::Success { subgoals, proof_builder } => {
            &&& first_matching_hyp(
                goal_state.context.deep_view(),
                goal_state.goal.deep_view().hypotheses,
                goal_state.goal.deep_view().proposition,
            ) is Some
            &&& subgoals@.len() == 0
            &&& proof_builder.deep_view() == BuilderV::Identity
        },
        TacticResult::Failure(_) => first_matching_hyp(
            goal_state.context.deep_view(),
            goal_state.goal.deep_view().hypotheses,
            goal_state.goal.deep_view().proposition,
        ) is None,
    }
}

/// Whether `refl` applies: the proposition is a path type whose two sides
/// evaluate in the context to definitionally equal values.
pub open spec fn refl_applies(c: crate::check::CtxV, prop: ExprV) -> bool {
    match prop {
        ExprV::Path { left, right, .. } => {
            &&& crate::eval::eval_s(
                *left,
                c.env,
                Seq::empty(),
                crate::DEFAULT_FUEL as nat,
            ) matches Ok(lv)
            &&& crate::eval::eval_s(
                *right,
                c.env,
                Seq::empty(),
                crate::DEFAULT_FUEL as nat,
            ) matches Ok(rv)
            &&& crate::value::conv_s(lv, rv, c.types.len() as u32, crate::DEFAULT_FUEL as nat)
        },
        _ => false,
    }
}

/// What a correct `refl` outcome is.
pub open spec fn refl_result_ok(goal_state: &GoalState, r: TacticResult) -> bool {
    match r {
        TacticResult::Success { subgoals, proof_builder } => {
            &&& refl_applies(
                goal_state.context.deep_view(),
                goal_state.goal.deep_view().proposition,
            )
            &&& subgoals@.len() == 0
            &&& proof_builder.deep_view() == BuilderV::Identity
        },
        TacticResult::Failure(_) => !refl_applies(
            goal_state.context.deep_view(),
            goal_state.goal.deep_view().proposition,
        ),
    }
}

/// The `intro` tactic: requires a function goal; the codomain becomes the
/// subgoal, with the bound name as a new first hypothesis, and the builder
/// wraps the subproof in a lambda.
#[verifier::rlimit(100)]
fn intro_tactic(goal_state: &GoalState) -> (r: TacticResult)
    ensures
        intro_result_ok(goal_state, r),
{
    proof {
        reveal_with_fuel(crate::syntax::expr_view, 2);
    }
    match &goal_state.goal.proposition {
        Expr::Pi { name, domain, codomain } => {
            let mut new_goal = Goal::new(GoalId(0), (**codomain).clone());
            new_goal.add_hypothesis(Hypothesis::new(name.0.clone(), (**domain).clone()));
            let mut i: usize = 0;
            proof {
                lemma_hyps_view(goal_state.goal.hypotheses@);
                assert(new_goal.deep_view().hypotheses =~= seq![
                    crate::goals::HypV {
                        name: name.deep_view(),
                        ty: domain.deep_view(),
                        body: None,
                    },
                ]);
            }
            while i < goal_state.goal.hypotheses.len()
                invariant
                    i <= goal_state.goal.hypotheses@.len(),
                    hyps_view(goal_state.goal.hypotheses@).len()
                        == goal_state.goal.hypotheses@.len(),
                    forall|j: int|
                        0 <= j < goal_state.goal.hypotheses@.len()
                            ==> #[trigger] hyps_view(goal_state.goal.hypotheses@)[j]
                            == goal_state.goal.hypotheses@[j].deep_view(),
                    new_goal.deep_view().hypotheses =~= seq![
                        crate::goals::HypV {
                            name: name.deep_view(),
                            ty: domain.deep_view(),
                            body: None,
                        },
                    ] + hyps_view(goal_state.goal.hypotheses@).subrange(0, i as int),
                    new_goal.deep_view().proposition == codomain.deep_view(),
                    new_goal.deep_view().id == 0,
                    new_goal.deep_view().name is None,
                decreases goal_state.goal.hypotheses@.len() - i,
            {
                let h = goal_state.goal.hypotheses[i].clone();
                new_goal.add_hypothesis(h);
                proof {
                    assert(hyps_view(goal_state.goal.hypotheses@).subrange(
                        0,
                        i + 1 as int,
                    ).drop_last() =~= hyps_view(goal_state.goal.hypotheses@).subrange(0, i as int));
                }
                i = i + 1;
            }
            proof {
                assert(hyps_view(goal_state.goal.hypotheses@).subrange(
                    0,
                    goal_state.goal.hypotheses@.len() as int,
                ) =~= hyps_view(goal_state.goal.hypotheses@));
            }
            let mut subgoals: Vec<Goal> = Vec::new();
            subgoals.push(new_goal);
            proof {
                crate::goals::lemma_goals_view(subgoals@);
            }
            TacticResult::Success {
                subgoals,
                proof_builder: ProofBuilder::lambda(name.clone()),
            }
        },
        _ => {
            let mut m = String::new();
            m.append("intro: the goal is not a function type");
            TacticResult::Failure(m)
        },
    }
}

/// The `assumption` tactic: closes the goal when a hypothesis type converts
/// to the goal's proposition, scanning in order.
#[verifier::rlimit(100)]
fn assumption_tactic(goal_state: &GoalState) -> (r: TacticResult)
    requires
        goal_state.context.deep_view().types.len() + (crate::DEFAULT_FUEL as nat)
            <= u32::MAX as nat,
    ensures
        assumption_result_ok(goal_state, r),
{
    let ghost cv = goal_state.context.deep_view();
    let ghost hv = hyps_view(goal_state.goal.hypotheses@);
    let ghost pv = goal_state.goal.deep_view().proposition;
    proof {
        lemma_hyps_view(goal_state.goal.hypotheses@);
        assert(hv.skip(0) =~= hv);
    }
    let prop_val = match crate::eval::eval(&goal_state.goal.proposition, goal_state.context.env()) {
        Ok(v) => v,
        Err(_) => {
            proof {
                lemma_no_match_without_prop(cv, hv, pv);
            }
            let mut m = String::new();
            m.append("assumption: the goal does not evaluate");
            return TacticResult::Failure(m);
        },
    };
    let level = goal_state.context.len() as u32;
    let mut i: usize = 0;
    while i < goal_state.goal.hypotheses.len()
        invariant
            cv == goal_state.context.deep_view(),
            pv == goal_state.goal.deep_view().proposition,
            cv.types.len() + (crate::DEFAULT_FUEL as nat) <= u32::MAX as nat,
            level == cv.types.len() as u32,
            crate::eval::eval_s(pv, cv.env, Seq::empty(), crate::DEFAULT_FUEL as nat) == Ok::<
                crate::value::ValueV,
                crate::errors::ErrKind,
            >(prop_val.deep_view()),
            i <= goal_state.goal.hypotheses@.len(),
            hv == hyps_view(goal_state.goal.hypotheses@),
            hv.len() == goal_state.goal.hypotheses@.len(),
            forall|j: int|
                0 <= j < hv.len() ==> #[trigger] hv[j]
                    == goal_state.goal.hypotheses@[j].deep_view(),
            first_matching_hyp(cv, hv, pv) == match first_matching_hyp(
                cv,
                hv.skip(i as int),
                pv,
            ) {
                Some(k) => Some(k + i),
                None => None::<int>,
            },
        decreases goal_state.goal.hypotheses@.len() - i,
    {
        proof {
            assert(hv.skip(i as int)[0] == hv[i as int]);
            assert(hv.skip(i as int).len() > 0);
            assert(hv.skip(i as int).skip(1) =~= hv.skip(i + 1));
        }
        let matched = match crate::eval::eval(
            &goal_state.goal.hypotheses[i].ty,
            goal_state.context.env(),
        ) {
            Ok(ty_val) => ty_val.conv_at(&prop_val, level, crate::DEFAULT_FUEL),
            Err(_) => false,
        };
        if matched {
            return TacticResult::Success {
                subgoals: Vec::new(),
                proof_builder: ProofBuilder::identity(),
            };
        }
        i = i + 1;
    }
    proof {
        assert(hv.skip(i as int).len() == 0);
    }
    let mut m = String::new();
    m.append("assumption: no matching hypothesis found");
    TacticResult::Failure(m)
}

/// Without an evaluating proposition, no hypothesis matches.
proof fn lemma_no_match_without_prop(c: crate::check::CtxV, hyps: Seq<crate::goals::HypV>, prop: ExprV)
    requires
        !(crate::eval::eval_s(prop, c.env, Seq::empty(), crate::DEFAULT_FUEL as nat) is Ok),
    ensures
        first_matching_hyp(c, hyps, prop) is None,
    decreases hyps.len(),
{
    if hyps.len() > 0 {
        lemma_no_match_without_prop(c, hyps.skip(1), prop);
    }
}

/// The `refl` tactic: closes a path goal whose two sides evaluate to
/// definitionally equal values.
fn refl_tactic(goal_state: &GoalState) -> (r: TacticResult)
    requires
        goal_state.context.deep_view().types.len() + (crate::DEFAULT_FUEL as nat)
            <= u32::MAX as nat,
    ensures
        refl_result_ok(goal_state, r),
{
    proof {
        reveal_with_fuel(crate::syntax::expr_view, 2);
    }
    match &goal_state.goal.proposition {
        Expr::Path { left, right, .. } => {
            let lv = match crate::eval::eval(left, goal_state.context.env()) {
                Ok(v) => v,
                Err(_) => {
                    let mut m = String::new();
                    m.append("refl: the left side does not evaluate");
                    return TacticResult::Failure(m);
                },
            };
            let rv = match crate::eval::eval(right, goal_state.context.env()) {
                Ok(v) => v,
                Err(_) => {
                    let mut m = String::new();
                    m.append("refl: the right side does not evaluate");
                    return TacticResult::Failure(m);
                },
            };
            let level = goal_state.context.len() as u32;
            if lv.conv_at(&rv, level, crate::DEFAULT_FUEL) {
                TacticResult::Success {
                    subgoals: Vec::new(),
                    proof_builder: ProofBuilder::identity(),
                }
            } else {
                let mut m = String::new();
                m.append("refl: the sides of the path are not convertible");
                TacticResult::Failure(m)
            }
        },
        _ => {
            let mut m = String::new();
            m.append("refl: the goal is not a path type");
            TacticResult::Failure(m)
        },
    }
}

/// The library of built-in tactics, in registration order.
#[derive(Debug)]
pub struct TacticLibrary {
    /// The registered tactics.
    pub tactics: Vec<BuiltinTactic>,
}

impl TacticLibrary {
    /// The library with the five built-in tactics registered.
    pub fn new() -> (r: Self)
        ensures
            r.tactics@ == seq![
                BuiltinTactic::Intro,
                BuiltinTactic::Exact,
                BuiltinTactic::Apply,
                BuiltinTactic::Assumption,
                BuiltinTactic::Refl,
            ],
    {
        let mut tactics: Vec<BuiltinTactic> = Vec::new();
        tactics.push(BuiltinTactic::Intro);
        tactics.push(BuiltinTactic::Exact);
        tactics.push(BuiltinTactic::Apply);
        tactics.push(BuiltinTactic::Assumption);
        tactics.push(BuiltinTactic::Refl);
        proof {
            assert(tactics@ =~= seq![
                BuiltinTactic::Intro,
                BuiltinTactic::Exact,
                BuiltinTactic::Apply,
                BuiltinTactic::Assumption,
                BuiltinTactic::Refl,
            ]);
        }
        TacticLibrary { tactics }
    }

    /// Registers a tactic.
    pub fn register(&mut self, tactic: BuiltinTactic)
        ensures
            final(self).tactics@ == old(self).tactics@.push(tactic),
    {
        self.tactics.push(tactic);
    }

    /// The registered tactic with the given name, if any.
    pub fn get(&self, name: &str) -> (r: Option<BuiltinTactic>)
        ensures
            r matches Some(t) ==> exists|i: int|
                0 <= i < self.tactics@.len() && #[trigger] self.tactics@[i] == t && t.name_s()
                    == name@,
            r is None ==> forall|i: int|
                0 <= i < self.tactics@.len() ==> (#[trigger] self.tactics@[i]).name_s() != name@,
    {
        let mut i: usize = 0;
        while i < self.tactics.len()
            invariant
                i <= self.tactics@.len(),
                forall|j: int|
                    0 <= j < i ==> (#[trigger] self.tactics@[j]).name_s() != name@,
            decreases self.tactics@.len() - i,
        {
            let t = self.tactics[i];
            if crate::text::str_eq(t.name(), name) {
                return Some(t);
            }
            i = i + 1;
        }
        None
    }

    /// The names of the registered tactics, in order.
    pub fn list(&self) -> (r: Vec<&'static str>)
        ensures
            r@.len() == self.tactics@.len(),
            forall|i: int|
                0 <= i < r@.len() ==> (#[trigger] r@[i])@ == self.tactics@[i].name_s(),
    {
        let mut out: Vec<&'static str> = Vec::new();
        let mut i: usize = 0;
        while i < self.tactics.len()
            invariant
                i <= self.tactics@.len(),
                out@.len() == i,
                forall|j: int|
                    0 <= j < i ==> (#[trigger] out@[j])@ == self.tactics@[j].name_s(),
            decreases self.tactics@.len() - i,
        {
            let t = self.tactics[i];
            out.push(t.name());
            i = i + 1;
        }
        out
    }
}

/// A tactic together with its argument.
#[derive(Debug)]
pub struct TacticWithArg {
    /// The tactic's name.
    pub name: String,
    /// Its argument.
    pub arg: TacticArg,
}

/// An argument to a tactic.
#[derive(Debug)]
pub enum TacticArg {
    /// A proof term.
    Term(Expr),
    /// A name.
    ArgName(String),
    /// A number.
    Number(i64),
}

impl TacticWithArg {
    /// The `exact` tactic with its term.
    pub fn exact(term: Expr) -> (r: Self)
        ensures
            r.name@ == "exact"@,
            r.arg matches TacticArg::Term(t) && t.deep_view() == term.deep_view(),
    {
        TacticWithArg { name: "exact".to_owned(), arg: TacticArg::Term(term) }
    }

    /// The `apply` tactic with its function.
    pub fn apply(term: Expr) -> (r: Self)
        ensures
            r.name@ == "apply"@,
            r.arg matches TacticArg::Term(t) && t.deep_view() == term.deep_view(),
    {
        TacticWithArg { name: "apply".to_owned(), arg: TacticArg::Term(term) }
    }

    /// The `intro` tactic with a chosen name.
    pub fn intro_named(name: String) -> (r: Self)
        ensures
            r.name@ == "intro"@,
            r.arg matches TacticArg::ArgName(n) && n@ == name@,
    {
        TacticWithArg { name: "intro".to_owned(), arg: TacticArg::ArgName(name) }
    }

    /// Applies the tactic: `exact` checks its term against the goal and
    /// closes it; `apply` infers a function type and opens its domain as a
    /// subgoal; anything else fails.
    #[verifier::rlimit(100)]
    #[verifier::spinoff_prover]
    pub fn apply_to(&self, goal_state: &GoalState) -> (r: TacticResult)
        requires
            goal_state.context.deep_view().types.len() + (crate::DEFAULT_FUEL as nat)
                <= u32::MAX as nat,
        ensures
            self.name@ == "exact"@ ==> match self.arg {
                TacticArg::Term(t) => match r {
                TacticResult::Success { subgoals, proof_builder } => {
                    &&& crate::eval::eval_s(
                        goal_state.goal.deep_view().proposition,
                        goal_state.context.deep_view().env,
                        Seq::empty(),
                        crate::DEFAULT_FUEL as nat,
                    ) matches Ok(ty)
                    &&& check_s(
                        goal_state.context.deep_view(),
                        t.deep_view(),
                        ty,
                        crate::DEFAULT_FUEL as nat,
                    ) is Ok
                    &&& subgoals@.len() == 0
                    &&& proof_builder.deep_view() == BuilderV::Identity
                },
                TacticResult::Failure(_) => !{
                    &&& crate::eval::eval_s(
                        goal_state.goal.deep_view().proposition,
                        goal_state.context.deep_view().env,
                        Seq::empty(),
                        crate::DEFAULT_FUEL as nat,
                    ) matches Ok(ty)
                    &&& check_s(
                        goal_state.context.deep_view(),
                        t.deep_view(),
                        ty,
                        crate::DEFAULT_FUEL as nat,
                    ) is Ok
                },
                },
                _ => r is Failure,
            },
            self.name@ == "apply"@ ==> match self.arg {
                TacticArg::Term(f) => match r {
                    TacticResult::Success { subgoals, proof_builder } => {
                        &&& infer_s(
                            goal_state.context.deep_view(),
                            f.deep_view(),
                            crate::DEFAULT_FUEL as nat,
                        ) matches Ok(ft)
                        &&& ft matches ValueV::VPi { domain, .. }
                        &&& normalize_s(
                            *domain,
                            goal_state.context.deep_view().types.len() as u32,
                            crate::DEFAULT_FUEL as nat,
                        ) matches Ok(de)
                        &&& goals_view(subgoals@).len() == 1
                        &&& goals_view(subgoals@)[0].proposition == de
                        &&& goals_view(subgoals@)[0].hypotheses
                            == goal_state.goal.deep_view().hypotheses
                        &&& proof_builder.deep_view() == BuilderV::Apply(f.deep_view())
                    },
                    TacticResult::Failure(_) => !{
                        &&& infer_s(
                            goal_state.context.deep_view(),
                            f.deep_view(),
                            crate::DEFAULT_FUEL as nat,
                        ) matches Ok(ft)
                        &&& ft matches ValueV::VPi { domain, .. }
                        &&& normalize_s(
                            *domain,
                            goal_state.context.deep_view().types.len() as u32,
                            crate::DEFAULT_FUEL as nat,
                        ) is Ok
                    },
                },
                _ => r is Failure,
            },
    {
        proof {
            reveal_strlit("exact");
            reveal_strlit("apply");
            assert(("exact"@).len() == 5 && ("apply"@).len() == 5);
            assert(("exact"@)[0] == 'e' && ("apply"@)[0] == 'a');
            assert("exact"@ != "apply"@);
        }
        let is_exact = crate::text::str_eq(self.name.as_str(), "exact");
        let is_apply = crate::text::str_eq(self.name.as_str(), "apply");
        if is_exact {
            match &self.arg {
                TacticArg::Term(term) => {
                    let expected_ty = match crate::eval::eval(
                        &goal_state.goal.proposition,
                        goal_state.context.env(),
                    ) {
                        Ok(v) => v,
                        Err(e) => {
                            let mut m = String::new();
                            m.append("exact: the goal does not evaluate: ");
                            m.append(e.message().as_str());
                            return TacticResult::Failure(m);
                        },
                    };
                    match crate::check::check(&goal_state.context, term, &expected_ty) {
                        Ok(_) => TacticResult::Success {
                            subgoals: Vec::new(),
                            proof_builder: ProofBuilder::identity(),
                        },
                        Err(e) => {
                            let mut m = String::new();
                            m.append("exact: type error: ");
                            m.append(e.message().as_str());
                            TacticResult::Failure(m)
                        },
                    }
                },
                _ => {
                    let mut m = String::new();
                    m.append("exact: a proof term argument is required");
                    TacticResult::Failure(m)
                },
            }
        } else if is_apply {
            match &self.arg {
                TacticArg::Term(func) => {
                    match crate::check::infer(&goal_state.context, func) {
                        Ok(func_ty) => match func_ty {
                            Value::VPi { domain, .. } => {
                                // read the domain back at the context's level,
                                // so its variables index the goal's context
                                let level = goal_state.context.len() as u32;
                                let domain_expr = match crate::normalize::normalize_fuel(
                                    &domain,
                                    level,
                                    crate::DEFAULT_FUEL,
                                ) {
                                    Ok(e) => e,
                                    Err(e) => {
                                        let mut m = String::new();
                                        m.append("apply: the domain does not read back: ");
                                        m.append(e.message().as_str());
                                        return TacticResult::Failure(m);
                                    },
                                };
                                let mut new_goal = Goal::new(GoalId(0), domain_expr);
                                let ghost hv = hyps_view(goal_state.goal.hypotheses@);
                                proof {
                                    lemma_hyps_view(goal_state.goal.hypotheses@);
                                    assert(new_goal.deep_view().hypotheses =~= hv.subrange(0, 0));
                                }
                                let mut i: usize = 0;
                                while i < goal_state.goal.hypotheses.len()
                                    invariant
                                        i <= goal_state.goal.hypotheses@.len(),
                                        hv == hyps_view(goal_state.goal.hypotheses@),
                                        hv.len() == goal_state.goal.hypotheses@.len(),
                                        forall|j: int|
                                            0 <= j < hv.len() ==> #[trigger] hv[j]
                                                == goal_state.goal.hypotheses@[j].deep_view(),
                                        new_goal.deep_view().hypotheses =~= hv.subrange(
                                            0,
                                            i as int,
                                        ),
                                        new_goal.deep_view().proposition
                                            == domain_expr.deep_view(),
                                    decreases goal_state.goal.hypotheses@.len() - i,
                                {
                                    let h = goal_state.goal.hypotheses[i].clone();
                                    new_goal.add_hypothesis(h);
                                    proof {
                                        assert(hv.subrange(0, i + 1 as int).drop_last()
                                            =~= hv.subrange(0, i as int));
                                        assert(hv.subrange(0, i + 1 as int).last()
                                            == hv[i as int]);
                                    }
                                    i = i + 1;
                                }
                                proof {
                                    assert(hv.subrange(0, hv.len() as int) =~= hv);
                                }
                                let mut subgoals: Vec<Goal> = Vec::new();
                                subgoals.push(new_goal);
                                proof {
                                    crate::goals::lemma_goals_view(subgoals@);
                                }
                                TacticResult::Success {
                                    subgoals,
                                    proof_builder: ProofBuilder::apply(func.clone()),
                                }
                            },
                            _ => {
                                let mut m = String::new();
                                m.append("apply: the function is not of a function type");
                                TacticResult::Failure(m)
                            },
                        },
                        Err(e) => {
                            let mut m = String::new();
                            m.append("apply: cannot infer a type: ");
                            m.append(e.message().as_str());
                            TacticResult::Failure(m)
                        },
                    }
                },
                _ => {
                    let mut m = String::new();
                    m.append("apply: a function argument is required");
                    TacticResult::Failure(m)
                },
            }
        } else {
            let mut m = String::new();
            m.append("unknown tactic or invalid argument: ");
            m.append(self.name.as_str());
            TacticResult::Failure(m)
        }
    }
}

} // verus!
