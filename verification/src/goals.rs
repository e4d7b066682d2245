//! Goals, hypotheses and the interactive proof state with its undo and redo
//! history.  Every mutation commits a snapshot; the cursor moves through the
//! committed states, and a new mutation after an undo drops the redo tail.

use vstd::prelude::*;

use crate::check::Context;
use crate::errors::{EngineErrKind, EngineError, KernelError};
use crate::syntax::{Expr, ExprV};
use crate::value::Env;

verus! {

/// Stable identifier of a goal.
#[derive(Debug, Clone, Copy, PartialEq, Eq, Hash, Structural)]
pub struct GoalId(pub u64);

/// A hypothesis: a name, its type, and an optional definition body.
#[derive(Debug)]
pub struct Hypothesis {
    /// Name of the hypothesis.
    pub name: String,
    /// Its type.
    pub ty: Expr,
    /// Optional body, for definitions.
    pub body: Option<Expr>,
}

/// View of a hypothesis.
#[verifier::ext_equal]
pub struct HypV {
    pub name: Seq<char>,
    pub ty: ExprV,
    pub body: Option<ExprV>,
}

impl DeepView for Hypothesis {
    type V = HypV;

    open spec fn deep_view(&self) -> HypV {
        HypV {
            name: self.name@,
            ty: self.ty.deep_view(),
            body: match self.body {
                Some(ref e) => Some(e.deep_view()),
                None => None,
            },
        }
    }
}

impl Clone for Hypothesis {
    /// Copies the hypothesis, keeping its view.
    fn clone(&self) -> (res: Self)
        ensures
            res.deep_view() == self.deep_view(),
    {
        Hypothesis {
            name: self.name.clone(),
            ty: self.ty.clone(),
            body: match &self.body {
                Some(e) => Some(e.clone()),
                None => None,
            },
        }
    }
}

impl Hypothesis {
    /// A hypothesis without a body.
    pub fn new(name: String, ty: Expr) -> (r: Self)
        ensures
            r.deep_view() == (HypV { name: name@, ty: ty.deep_view(), body: None }),
    {
        Hypothesis { name, ty, body: None }
    }

    /// The hypothesis with a definition body attached.
    pub fn with_body(self, body: Expr) -> (r: Self)
        ensures
            r.deep_view() == (HypV { body: Some(body.deep_view()), ..self.deep_view() }),
    {
        Hypothesis { name: self.name, ty: self.ty, body: Some(body) }
    }
}

/// View of a list of hypotheses.
pub open spec fn hyps_view(s: Seq<Hypothesis>) -> Seq<HypV>
    decreases s,
{
    if s.len() == 0 {
        Seq::empty()
    } else {
        hyps_view(s.drop_last()).push(s.last().deep_view())
    }
}

/// Index characterisation of `hyps_view`.
pub proof fn lemma_hyps_view(s: Seq<Hypothesis>)
    ensures
        hyps_view(s).len() == s.len(),
        forall|i: int| 0 <= i < s.len() ==> #[trigger] hyps_view(s)[i] == s[i].deep_view(),
    decreases s,
{
    if s.len() > 0 {
        lemma_hyps_view(s.drop_last());
    }
}

/// A proof goal: a proposition to prove under hypotheses.
#[derive(Debug)]
pub struct Goal {
    /// Unique identifier.
    pub id: GoalId,
    /// The proposition to prove.
    pub proposition: Expr,
    /// Hypotheses in scope for this goal.
    pub hypotheses: Vec<Hypothesis>,
    /// Optional name.
    pub name: Option<String>,
}

/// View of a goal.
#[verifier::ext_equal]
pub struct GoalV {
    pub id: u64,
    pub proposition: ExprV,
    pub hypotheses: Seq<HypV>,
    pub name: Option<Seq<char>>,
}

impl DeepView for Goal {
    type V = GoalV;

    open spec fn deep_view(&self) -> GoalV {
        GoalV {
            id: self.id.0,
            proposition: self.proposition.deep_view(),
            hypotheses: hyps_view(self.hypotheses@),
            name: match self.name {
                Some(ref s) => Some(s@),
                None => None,
            },
        }
    }
}

impl Clone for Goal {
    /// Copies the goal, keeping its view.
    fn clone(&self) -> (res: Self)
        ensures
            res.deep_view() == self.deep_view(),
    {
        let mut hyps: Vec<Hypothesis> = Vec::new();
        let mut i: usize = 0;
        while i < self.hypotheses.len()
            invariant
                i <= self.hypotheses@.len(),
                hyps@.len() == i,
                forall|j: int|
                    0 <= j < i ==> (#[trigger] hyps@[j]).deep_view()
                        == self.hypotheses@[j].deep_view(),
            decreases self.hypotheses@.len() - i,
        {
            let h = self.hypotheses[i].clone();
            hyps.push(h);
            i = i + 1;
        }
        proof {
            lemma_hyps_view(hyps@);
            lemma_hyps_view(self.hypotheses@);
            assert(hyps_view(hyps@) =~= hyps_view(self.hypotheses@));
        }
        Goal {
            id: GoalId(self.id.0),
            proposition: self.proposition.clone(),
            hypotheses: hyps,
            name: match &self.name {
                Some(s) => Some(s.clone()),
                None => None,
            },
        }
    }
}

impl Goal {
    /// A goal without hypotheses.
    pub fn new(id: GoalId, proposition: Expr) -> (r: Self)
        ensures
            r.deep_view() == (GoalV {
                id: id.0,
                proposition: proposition.deep_view(),
                hypotheses: Seq::<HypV>::empty(),
                name: None,
            }),
    {
        let r = Goal { id, proposition, hypotheses: Vec::new(), name: None };
        proof {
            assert(hyps_view(r.hypotheses@) =~= Seq::<HypV>::empty());
        }
        r
    }

    /// The goal with a display name.
    pub fn with_name(self, name: String) -> (r: Self)
        ensures
            r.deep_view() == (GoalV { name: Some(name@), ..self.deep_view() }),
    {
        Goal {
            id: self.id,
            proposition: self.proposition,
            hypotheses: self.hypotheses,
            name: Some(name),
        }
    }

    /// Appends a hypothesis.
    pub fn add_hypothesis(&mut self, hypothesis: Hypothesis)
        ensures
            final(self).deep_view() == (GoalV {
                hypotheses: old(self).deep_view().hypotheses.push(hypothesis.deep_view()),
                ..old(self).deep_view()
            }),
    {
        let ghost pre = self.hypotheses@;
        let ghost hv = hypothesis.deep_view();
        self.hypotheses.push(hypothesis);
        proof {
            assert(self.hypotheses@.drop_last() =~= pre);
            assert(hyps_view(self.hypotheses@) == hyps_view(pre).push(hv));
        }
    }

    /// Builds a type checking context from the hypotheses, evaluating each
    /// hypothesis type in the empty environment: it succeeds exactly when
    /// every hypothesis type evaluates (so always, for a goal without
    /// hypotheses), and the context then binds each evaluated type in order.
    pub fn to_context(&self) -> (r: Result<Context, KernelError>)
        requires
            self.deep_view().hypotheses.len() + (crate::DEFAULT_FUEL as nat) < u32::MAX as nat,
        ensures
            r is Ok <==> (forall|i: int|
                0 <= i < self.deep_view().hypotheses.len() ==> crate::eval::eval_s(
                    (#[trigger] self.deep_view().hypotheses[i]).ty,
                    Seq::empty(),
                    Seq::empty(),
                    crate::DEFAULT_FUEL as nat,
                ) is Ok),
            r matches Ok(c) ==> c.deep_view().types.len() == self.deep_view().hypotheses.len()
                && (forall|i: int|
                0 <= i < self.deep_view().hypotheses.len() ==> #[trigger] c.deep_view().types[i]
                    == crate::eval::eval_s(
                    self.deep_view().hypotheses[i].ty,
                    Seq::empty(),
                    Seq::empty(),
                    crate::DEFAULT_FUEL as nat,
                )->Ok_0),
    {
        let ghost hv = hyps_view(self.hypotheses@);
        proof {
            lemma_hyps_view(self.hypotheses@);
        }
        let mut ctx = Context::new();
        let mut i: usize = 0;
        while i < self.hypotheses.len()
            invariant
                hv == hyps_view(self.hypotheses@),
                hv.len() == self.hypotheses@.len(),
                forall|j: int|
                    0 <= j < hv.len() ==> #[trigger] hv[j] == self.hypotheses@[j].deep_view(),
                i <= self.hypotheses@.len(),
                ctx.deep_view().types.len() == i,
                self.hypotheses@.len() + (crate::DEFAULT_FUEL as nat) < u32::MAX as nat,
                forall|j: int|
                    0 <= j < i ==> crate::eval::eval_s(
                        (#[trigger] hv[j]).ty,
                        Seq::empty(),
                        Seq::empty(),
                        crate::DEFAULT_FUEL as nat,
                    ) is Ok,
                forall|j: int|
                    0 <= j < i ==> #[trigger] ctx.deep_view().types[j] == crate::eval::eval_s(
                        hv[j].ty,
                        Seq::empty(),
                        Seq::empty(),
                        crate::DEFAULT_FUEL as nat,
                    )->Ok_0,
            decreases self.hypotheses@.len() - i,
        {
            let empty_env: Env = Vec::new();
            proof {
                assert(crate::value::env_view(empty_env@) =~= Seq::<crate::value::ValueV>::empty());
            }
            let ty_value = match crate::eval::eval(&self.hypotheses[i].ty, &empty_env) {
                Ok(v) => v,
                Err(e) => {
                    proof {
                        assert(crate::eval::eval_s(
                            hv[i as int].ty,
                            Seq::empty(),
                            Seq::empty(),
                            crate::DEFAULT_FUEL as nat,
                        ) is Err);
                    }
                    return Err(e);
                },
            };
            ctx = ctx.extend(crate::syntax::Name(self.hypotheses[i].name.clone()), ty_value);
            i = i + 1;
        }
        Ok(ctx)
    }
}

/// View of a list of goals.
pub open spec fn goals_view(s: Seq<Goal>) -> Seq<GoalV>
    decreases s,
{
    if s.len() == 0 {
        Seq::empty()
    } else {
        goals_view(s.drop_last()).push(s.last().deep_view())
    }
}

/// Index characterisation of `goals_view`.
pub proof fn lemma_goals_view(s: Seq<Goal>)
    ensures
        goals_view(s).len() == s.len(),
        forall|i: int| 0 <= i < s.len() ==> #[trigger] goals_view(s)[i] == s[i].deep_view(),
    decreases s,
{
    if s.len() > 0 {
        lemma_goals_view(s.drop_last());
    }
}

/// Copies a list of goals, keeping its view.
pub fn clone_goals(v: &Vec<Goal>) -> (res: Vec<Goal>)
    ensures
        goals_view(res@) == goals_view(v@),
        res@.len() == v@.len(),
{
    let mut out: Vec<Goal> = Vec::new();
    let mut i: usize = 0;
    while i < v.len()
        invariant
            i <= v@.len(),
            out@.len() == i,
            forall|j: int|
                0 <= j < i ==> (#[trigger] out@[j]).deep_view() == v@[j].deep_view(),
        decreases v@.len() - i,
    {
        let gcopy = v[i].clone();
        out.push(gcopy);
        i = i + 1;
    }
    proof {
        lemma_goals_view(v@);
        lemma_goals_view(out@);
        assert(goals_view(out@) =~= goals_view(v@));
    }
    out
}

/// A committed snapshot of the open and completed goals.
#[derive(Debug)]
pub struct ProofSnapshot {
    /// The open goals at the commit.
    pub goals: Vec<Goal>,
    /// The completed goals at the commit.
    pub completed: Vec<Goal>,
}

/// View of a snapshot.
#[verifier::ext_equal]
pub struct SnapV {
    pub goals: Seq<GoalV>,
    pub completed: Seq<GoalV>,
}

impl DeepView for ProofSnapshot {
    type V = SnapV;

    open spec fn deep_view(&self) -> SnapV {
        SnapV { goals: goals_view(self.goals@), completed: goals_view(self.completed@) }
    }
}

/// View of the history.
pub open spec fn snaps_view(s: Seq<ProofSnapshot>) -> Seq<SnapV>
    decreases s,
{
    if s.len() == 0 {
        Seq::empty()
    } else {
        snaps_view(s.drop_last()).push(s.last().deep_view())
    }
}

/// Index characterisation of `snaps_view`.
pub proof fn lemma_snaps_view(s: Seq<ProofSnapshot>)
    ensures
        snaps_view(s).len() == s.len(),
        forall|i: int| 0 <= i < s.len() ==> #[trigger] snaps_view(s)[i] == s[i].deep_view(),
    decreases s,
{
    if s.len() > 0 {
        lemma_snaps_view(s.drop_last());
    }
}

/// The interactive proof state.
#[derive(Debug)]
pub struct ProofState {
    /// Current open goals, first goal first.
    pub goals: Vec<Goal>,
    /// Completed goals.
    pub completed: Vec<Goal>,
    /// Committed snapshots; the cursor points at the current one.
    pub history: Vec<ProofSnapshot>,
    /// The history cursor.
    pub history_pos: usize,
    /// The next fresh goal identifier.
    pub next_goal_id: u64,
}

/// View of a proof state.
#[verifier::ext_equal]
pub struct StateV {
    pub goals: Seq<GoalV>,
    pub completed: Seq<GoalV>,
    pub history: Seq<SnapV>,
    pub history_pos: int,
    pub next_goal_id: u64,
}

impl DeepView for ProofState {
    type V = StateV;

    open spec fn deep_view(&self) -> StateV {
        StateV {
            goals: goals_view(self.goals@),
            completed: goals_view(self.completed@),
            history: snaps_view(self.history@),
            history_pos: self.history_pos as int,
            next_goal_id: self.next_goal_id,
        }
    }
}

/// The snapshot of a state's current goals.
pub open spec fn snap_of(s: StateV) -> SnapV {
    SnapV { goals: s.goals, completed: s.completed }
}

/// Well-formedness of a proof state: the cursor is inside the history and
/// points at a snapshot of the current goals.
pub open spec fn state_wf(s: StateV) -> bool {
    &&& 0 <= s.history_pos < s.history.len()
    &&& s.history[s.history_pos] == snap_of(s)
}

/// A mutation commits: the redo tail is dropped and the new current state is
/// appended, with the cursor on it.
pub open spec fn commit_s(s: StateV, goals: Seq<GoalV>, completed: Seq<GoalV>) -> StateV {
    StateV {
        goals: goals,
        completed: completed,
        history: s.history.subrange(0, s.history_pos + 1).push(
            SnapV { goals: goals, completed: completed },
        ),
        history_pos: s.history_pos + 1,
        ..s
    }
}

/// Appending a goal.
pub open spec fn add_goal_s(s: StateV, g: GoalV) -> StateV {
    commit_s(s, s.goals.push(g), s.completed)
}

/// Completing the first goal.
pub open spec fn complete_s(s: StateV) -> StateV {
    commit_s(s, s.goals.skip(1), s.completed.push(s.goals[0]))
}

/// Replacing the first goal by subgoals.
pub open spec fn replace_s(s: StateV, subs: Seq<GoalV>) -> StateV {
    commit_s(s, subs + s.goals.skip(1), s.completed)
}

/// Moving the cursor one step back and restoring that snapshot.
pub open spec fn undo_s(s: StateV) -> StateV {
    StateV {
        goals: s.history[s.history_pos - 1].goals,
        completed: s.history[s.history_pos - 1].completed,
        history_pos: s.history_pos - 1,
        ..s
    }
}

/// Moving the cursor one step forward and restoring that snapshot.
pub open spec fn redo_s(s: StateV) -> StateV {
    StateV {
        goals: s.history[s.history_pos + 1].goals,
        completed: s.history[s.history_pos + 1].completed,
        history_pos: s.history_pos + 1,
        ..s
    }
}

/// Undo after a commit restores the goals exactly as they were, and redo
/// after that undo reinstates the committed goals: the two moves are inverse
/// around any mutation.
pub proof fn lemma_undo_redo(s: StateV, goals: Seq<GoalV>, completed: Seq<GoalV>)
    requires
        state_wf(s),
    ensures
        state_wf(commit_s(s, goals, completed)),
        undo_s(commit_s(s, goals, completed)).goals == s.goals,
        undo_s(commit_s(s, goals, completed)).completed == s.completed,
        state_wf(undo_s(commit_s(s, goals, completed))),
        redo_s(undo_s(commit_s(s, goals, completed))).goals == goals,
        redo_s(undo_s(commit_s(s, goals, completed))).completed == completed,
{
    let c = commit_s(s, goals, completed);
    assert(c.history[c.history_pos] == (SnapV { goals, completed }));
    assert(c.history[c.history_pos - 1] == s.history[s.history_pos]);
}

/// Undo and redo are inverse around appending a goal: this is the general
/// law for the one-goal mutation; every other mutation commits the same way.
pub proof fn lemma_undo_restores_after_add_goal(s: StateV, g: GoalV)
    requires
        state_wf(s),
    ensures
        undo_s(add_goal_s(s, g)).goals == s.goals,
        undo_s(add_goal_s(s, g)).completed == s.completed,
        redo_s(undo_s(add_goal_s(s, g))).goals == s.goals.push(g),
        redo_s(undo_s(add_goal_s(s, g))).completed == s.completed,
{
    lemma_undo_redo(s, s.goals.push(g), s.completed);
}

impl ProofState {
    /// A proof state with no goals and the initial snapshot committed.
    pub fn new() -> (r: Self)
        ensures
            state_wf(r.deep_view()),
            r.deep_view().goals.len() == 0,
            r.deep_view().completed.len() == 0,
            r.deep_view().history.len() == 1,
            r.deep_view().history_pos == 0,
            r.deep_view().next_goal_id == 0,
    {
        let snap = ProofSnapshot { goals: Vec::new(), completed: Vec::new() };
        let mut history: Vec<ProofSnapshot> = Vec::new();
        history.push(snap);
        let r = ProofState {
            goals: Vec::new(),
            completed: Vec::new(),
            history,
            history_pos: 0,
            next_goal_id: 0,
        };
        proof {
            lemma_snaps_view(r.history@);
            assert(goals_view(r.goals@) =~= Seq::<GoalV>::empty());
            assert(goals_view(r.completed@) =~= Seq::<GoalV>::empty());
            assert(goals_view(r.history@[0].goals@) =~= Seq::<GoalV>::empty());
            assert(goals_view(r.history@[0].completed@) =~= Seq::<GoalV>::empty());
        }
        r
    }

    /// A proof state with one initial goal.
    pub fn with_goal(proposition: Expr) -> (r: Self)
        ensures
            state_wf(r.deep_view()),
            r.deep_view().goals.len() == 1,
            r.deep_view().goals[0].proposition == proposition.deep_view(),
            r.deep_view().completed.len() == 0,
            r.deep_view().history.len() == 2,
            r.deep_view().history_pos == 1,
            r.deep_view().next_goal_id == 1,
    {
        let mut state = ProofState::new();
        state.add_goal(Goal::new(GoalId(0), proposition));
        state.next_goal_id = 1;
        proof {
            assert(state.deep_view().history[state.deep_view().history_pos] == snap_of(
                state.deep_view(),
            ));
        }
        state
    }

    /// Commits the current goals as a new snapshot, dropping any redo tail.
    fn save_snapshot(&mut self)
        requires
            state_wf(old(self).deep_view()),
            old(self).deep_view().history.len() < usize::MAX,
        ensures
            final(self).deep_view() == commit_s(
                old(self).deep_view(),
                old(self).deep_view().goals,
                old(self).deep_view().completed,
            ),
            state_wf(final(self).deep_view()),
    {
        proof {
            lemma_snaps_view(self.history@);
        }
        let snap = ProofSnapshot {
            goals: clone_goals(&self.goals),
            completed: clone_goals(&self.completed),
        };
        self.history.truncate(self.history_pos + 1);
        let ghost truncated = self.history@;
        self.history.push(snap);
        self.history_pos = self.history_pos + 1;
        proof {
            lemma_snaps_view_subrange(old(self).history@, self.history_pos as int);
            assert(self.history@.drop_last() =~= truncated);
            assert(snaps_view(self.history@) == snaps_view(truncated).push(
                SnapV {
                    goals: old(self).deep_view().goals,
                    completed: old(self).deep_view().completed,
                },
            ));
            assert(truncated =~= old(self).history@.subrange(0, self.history_pos as int));
            assert(snaps_view(self.history@) =~= old(self).deep_view().history.subrange(
                0,
                self.history_pos as int,
            ).push(
                SnapV {
                    goals: old(self).deep_view().goals,
                    completed: old(self).deep_view().completed,
                },
            ));
        }
    }

    /// Appends a goal, committing a snapshot.
    pub fn add_goal(&mut self, goal: Goal)
        requires
            state_wf(old(self).deep_view()),
            old(self).deep_view().history.len() < usize::MAX,
        ensures
            final(self).deep_view() == add_goal_s(old(self).deep_view(), goal.deep_view()),
            state_wf(final(self).deep_view()),
    {
        let ghost gv = goal.deep_view();
        let ghost pre = self.goals@;
        self.goals.push(goal);
        proof {
            assert(self.goals@.drop_last() =~= pre);
            assert(goals_view(self.goals@) == goals_view(pre).push(gv));
        }
        self.save_snapshot_after();
    }

    /// Commits after the goals were already changed: the snapshot taken is of
    /// the new goals.
    fn save_snapshot_after(&mut self)
        requires
            0 <= old(self).deep_view().history_pos < old(self).deep_view().history.len(),
            old(self).deep_view().history.len() < usize::MAX,
        ensures
            final(self).deep_view() == commit_s(
                StateV { history_pos: old(self).deep_view().history_pos, ..old(self).deep_view() },
                old(self).deep_view().goals,
                old(self).deep_view().completed,
            ),
            state_wf(final(self).deep_view()),
    {
        proof {
            lemma_snaps_view(self.history@);
        }
        let snap = ProofSnapshot {
            goals: clone_goals(&self.goals),
            completed: clone_goals(&self.completed),
        };
        self.history.truncate(self.history_pos + 1);
        let ghost truncated = self.history@;
        self.history.push(snap);
        self.history_pos = self.history_pos + 1;
        proof {
            assert(self.history@.drop_last() =~= truncated);
            assert(truncated =~= old(self).history@.subrange(0, self.history_pos as int));
            lemma_snaps_view_subrange(old(self).history@, self.history_pos as int);
            assert(snaps_view(self.history@) =~= old(self).deep_view().history.subrange(
                0,
                self.history_pos as int,
            ).push(
                SnapV {
                    goals: old(self).deep_view().goals,
                    completed: old(self).deep_view().completed,
                },
            ));
        }
    }

    /// The first open goal, if any.
    pub fn current_goal(&self) -> (r: Option<&Goal>)
        ensures
            match r {
                Some(g) => self.deep_view().goals.len() > 0 && g.deep_view()
                    == self.deep_view().goals[0],
                None => self.deep_view().goals.len() == 0,
            },
    {
        proof {
            lemma_goals_view(self.goals@);
        }
        if self.goals.len() > 0 {
            Some(&self.goals[0])
        } else {
            None
        }
    }

    /// The goal with the given identifier, if present.
    pub fn get_goal(&self, id: GoalId) -> (r: Option<&Goal>)
        ensures
            r matches Some(g) ==> exists|i: int|
                0 <= i < self.deep_view().goals.len() && (#[trigger] self.deep_view().goals[i]).id
                    == id.0 && g.deep_view() == self.deep_view().goals[i],
            r is None ==> forall|i: int|
                0 <= i < self.deep_view().goals.len() ==> (#[trigger] self.deep_view().goals[i]).id
                    != id.0,
    {
        proof {
            lemma_goals_view(self.goals@);
        }
        let mut i: usize = 0;
        while i < self.goals.len()
            invariant
                i <= self.goals@.len(),
                self.deep_view().goals.len() == self.goals@.len(),
                forall|j: int|
                    0 <= j < self.goals@.len() ==> #[trigger] self.deep_view().goals[j]
                        == self.goals@[j].deep_view(),
                forall|j: int| 0 <= j < i ==> (#[trigger] self.deep_view().goals[j]).id != id.0,
            decreases self.goals@.len() - i,
        {
            if self.goals[i].id.0 == id.0 {
                proof {
                    assert(self.deep_view().goals[i as int] == self.goals@[i as int].deep_view());
                    assert(self.deep_view().goals[i as int].id == id.0);
                }
                return Some(&self.goals[i]);
            }
            i = i + 1;
        }
        None
    }

    /// Removes the first goal and records it as completed.
    pub fn complete_current_goal(&mut self) -> (r: Result<Goal, EngineError>)
        requires
            state_wf(old(self).deep_view()),
            old(self).deep_view().history.len() < usize::MAX,
        ensures
            match r {
                Ok(g) => old(self).deep_view().goals.len() > 0 && g.deep_view() == old(
                    self,
                ).deep_view().goals[0] && final(self).deep_view() == complete_s(
                    old(self).deep_view(),
                ) && state_wf(final(self).deep_view()),
                Err(e) => old(self).deep_view().goals.len() == 0 && final(self).deep_view() == old(
                    self,
                ).deep_view() && e.kind() == EngineErrKind::GoalNotFound,
            },
    {
        proof {
            lemma_goals_view(self.goals@);
        }
        if self.goals.len() == 0 {
            return Err(EngineError::GoalNotFound);
        }
        let goal = self.goals.remove(0);
        let ghost pre_completed = self.completed@;
        let copy = goal.clone();
        self.completed.push(copy);
        proof {
            lemma_goals_view(old(self).goals@);
            lemma_goals_view(self.goals@);
            assert(goals_view(self.goals@) =~= goals_view(old(self).goals@).skip(1));
            assert(self.completed@.drop_last() =~= pre_completed);
            assert(goals_view(self.completed@) == goals_view(pre_completed).push(
                old(self).goals@[0].deep_view(),
            ));
        }
        self.save_snapshot_after();
        Ok(goal)
    }

    /// Replaces the first goal with the given subgoals, committing.
    pub fn replace_goal(&mut self, subgoals: Vec<Goal>)
        requires
            state_wf(old(self).deep_view()),
            old(self).deep_view().history.len() < usize::MAX,
        ensures
            final(self).deep_view() == replace_s(
                old(self).deep_view(),
                goals_view(subgoals@),
            ) || (old(self).deep_view().goals.len() == 0 && final(self).deep_view() == commit_s(
                old(self).deep_view(),
                goals_view(subgoals@) + old(self).deep_view().goals,
                old(self).deep_view().completed,
            )),
            state_wf(final(self).deep_view()),
    {
        proof {
            lemma_goals_view(self.goals@);
            lemma_goals_view(subgoals@);
        }
        let ghost subs_v = goals_view(subgoals@);
        let mut new_goals = subgoals;
        let start: usize = if self.goals.len() > 0 {
            1
        } else {
            0
        };
        let mut i = start;
        while i < self.goals.len()
            invariant
                start <= i <= self.goals@.len(),
                start <= 1,
                self.goals@ == old(self).goals@,
                forall|j: int|
                    0 <= j < self.goals@.len() ==> (#[trigger] goals_view(self.goals@)[j])
                        == self.goals@[j].deep_view(),
                goals_view(self.goals@).len() == self.goals@.len(),
                goals_view(new_goals@) =~= subs_v + goals_view(self.goals@).subrange(
                    start as int,
                    i as int,
                ),
            decreases self.goals@.len() - i,
        {
            let ghost pre = new_goals@;
            let g = self.goals[i].clone();
            new_goals.push(g);
            proof {
                assert(new_goals@.drop_last() =~= pre);
                assert(goals_view(new_goals@) == goals_view(pre).push(
                    self.goals@[i as int].deep_view(),
                ));
                assert(goals_view(self.goals@).subrange(start as int, i + 1 as int).drop_last()
                    =~= goals_view(self.goals@).subrange(start as int, i as int));
                assert(goals_view(new_goals@) =~= subs_v + goals_view(self.goals@).subrange(
                    start as int,
                    i + 1 as int,
                ));
            }
            i = i + 1;
        }
        self.goals = new_goals;
        proof {
            lemma_goals_view(old(self).goals@);
            if old(self).goals@.len() > 0 {
                assert(goals_view(old(self).goals@).subrange(
                    1,
                    old(self).goals@.len() as int,
                ) =~= goals_view(old(self).goals@).skip(1));
                assert(goals_view(self.goals@) =~= subs_v + goals_view(old(self).goals@).skip(1));
            } else {
                assert(goals_view(self.goals@) =~= subs_v + goals_view(old(self).goals@));
            }
        }
        self.save_snapshot_after();
    }

    /// The completed goals.
    pub fn completed_goals(&self) -> (r: &Vec<Goal>)
        ensures
            goals_view(r@) == self.deep_view().completed,
    {
        &self.completed
    }

    /// Whether no goals remain open.
    pub fn is_complete(&self) -> (r: bool)
        ensures
            r == (self.deep_view().goals.len() == 0),
    {
        proof {
            lemma_goals_view(self.goals@);
        }
        self.goals.len() == 0
    }

    /// The number of open goals.
    pub fn num_goals(&self) -> (r: usize)
        ensures
            r == self.deep_view().goals.len(),
    {
        proof {
            lemma_goals_view(self.goals@);
        }
        self.goals.len()
    }

    /// A fresh goal identifier.
    pub fn new_goal_id(&mut self) -> (r: GoalId)
        requires
            old(self).deep_view().next_goal_id < u64::MAX,
        ensures
            r.0 == old(self).deep_view().next_goal_id,
            final(self).deep_view() == (StateV {
                next_goal_id: (old(self).deep_view().next_goal_id + 1) as u64,
                ..old(self).deep_view()
            }),
    {
        let id = GoalId(self.next_goal_id);
        self.next_goal_id = self.next_goal_id + 1;
        id
    }

    /// Steps the cursor back and restores that snapshot; fails when no
    /// earlier snapshot exists.
    pub fn undo(&mut self) -> (r: Result<(), EngineError>)
        requires
            state_wf(old(self).deep_view()),
        ensures
            match r {
                Ok(_) => old(self).deep_view().history_pos > 0 && final(self).deep_view() == undo_s(
                    old(self).deep_view(),
                ) && state_wf(final(self).deep_view()),
                Err(e) => old(self).deep_view().history_pos == 0 && final(self).deep_view() == old(
                    self,
                ).deep_view() && e.kind() == EngineErrKind::InvalidProofState,
            },
    {
        proof {
            lemma_snaps_view(self.history@);
        }
        if self.history_pos > 0 {
            self.history_pos = self.history_pos - 1;
            let snapshot_goals = clone_goals(&self.history[self.history_pos].goals);
            let snapshot_completed = clone_goals(&self.history[self.history_pos].completed);
            self.goals = snapshot_goals;
            self.completed = snapshot_completed;
            Ok(())
        } else {
            let mut m = String::new();
            m.append("no history to undo");
            Err(EngineError::InvalidProofState(m))
        }
    }

    /// Steps the cursor forward and restores that snapshot; fails when no
    /// later snapshot exists.
    pub fn redo(&mut self) -> (r: Result<(), EngineError>)
        requires
            state_wf(old(self).deep_view()),
        ensures
            match r {
                Ok(_) => old(self).deep_view().history_pos + 1 < old(
                    self,
                ).deep_view().history.len() && final(self).deep_view() == redo_s(
                    old(self).deep_view(),
                ) && state_wf(final(self).deep_view()),
                Err(e) => old(self).deep_view().history_pos + 1 >= old(
                    self,
                ).deep_view().history.len() && final(self).deep_view() == old(self).deep_view()
                    && e.kind() == EngineErrKind::InvalidProofState,
            },
    {
        proof {
            lemma_snaps_view(self.history@);
        }
        let len = self.history.len();
        if len > 0 && self.history_pos < len - 1 {
            self.history_pos = self.history_pos + 1;
            let snapshot_goals = clone_goals(&self.history[self.history_pos].goals);
            let snapshot_completed = clone_goals(&self.history[self.history_pos].completed);
            self.goals = snapshot_goals;
            self.completed = snapshot_completed;
            Ok(())
        } else {
            let mut m = String::new();
            m.append("no history to redo");
            Err(EngineError::InvalidProofState(m))
        }
    }

    /// Whether undo is available.
    pub fn can_undo(&self) -> (r: bool)
        ensures
            r == (self.deep_view().history_pos > 0),
    {
        self.history_pos > 0
    }

    /// Whether redo is available.
    pub fn can_redo(&self) -> (r: bool)
        ensures
            r == (self.deep_view().history_pos + 1 < self.deep_view().history.len()),
    {
        proof {
            lemma_snaps_view(self.history@);
        }
        let len = self.history.len();
        if len == 0 {
            false
        } else {
            self.history_pos < len - 1
        }
    }

    /// A display summary of the proof state.
    pub fn summary(&self) -> (r: ProofStateSummary)
        ensures
            r.num_goals == self.deep_view().goals.len(),
            r.num_completed == self.deep_view().completed.len(),
            r.can_undo == (self.deep_view().history_pos > 0),
            r.can_redo == (self.deep_view().history_pos + 1 < self.deep_view().history.len()),
    {
        proof {
            lemma_goals_view(self.goals@);
            lemma_goals_view(self.completed@);
        }
        let current_goal = match self.current_goal() {
            Some(g) => Some(g.proposition.clone()),
            None => None,
        };
        ProofStateSummary {
            num_goals: self.goals.len(),
            num_completed: self.completed.len(),
            current_goal,
            can_undo: self.can_undo(),
            can_redo: self.can_redo(),
        }
    }
}

/// `snaps_view` of a prefix.
proof fn lemma_snaps_view_subrange(s: Seq<ProofSnapshot>, i: int)
    requires
        0 <= i <= s.len(),
    ensures
        snaps_view(s.subrange(0, i)) =~= snaps_view(s).subrange(0, i),
{
    lemma_snaps_view(s);
    lemma_snaps_view(s.subrange(0, i));
}

/// A display summary of a proof state.
#[derive(Debug)]
pub struct ProofStateSummary {
    /// The number of open goals.
    pub num_goals: usize,
    /// The number of completed goals.
    pub num_completed: usize,
    /// The current goal's proposition, if any.
    pub current_goal: Option<Expr>,
    /// Whether undo is available.
    pub can_undo: bool,
    /// Whether redo is available.
    pub can_redo: bool,
}


/// The working state for one goal: the goal, its context, and a partial
/// proof.
#[derive(Debug)]
pub struct GoalState {
    /// The goal itself.
    pub goal: Goal,
    /// The context built from its hypotheses.
    pub context: Context,
    /// A partial proof term, if one was set.
    pub partial_proof: Option<Expr>,
}

impl GoalState {
    /// Builds the working state for a goal; it succeeds exactly when every
    /// hypothesis type evaluates, so always for a goal without hypotheses.
    pub fn new(goal: Goal) -> (r: Result<GoalState, KernelError>)
        requires
            goal.deep_view().hypotheses.len() + (crate::DEFAULT_FUEL as nat) < u32::MAX as nat,
        ensures
            r is Ok <==> (forall|i: int|
                0 <= i < goal.deep_view().hypotheses.len() ==> crate::eval::eval_s(
                    (#[trigger] goal.deep_view().hypotheses[i]).ty,
                    Seq::empty(),
                    Seq::empty(),
                    crate::DEFAULT_FUEL as nat,
                ) is Ok),
            r matches Ok(gs) ==> gs.goal.deep_view() == goal.deep_view()
                && gs.partial_proof is None && gs.context.deep_view().types.len()
                == goal.deep_view().hypotheses.len(),
    {
        let context = match goal.to_context() {
            Ok(c) => c,
            Err(e) => {
                return Err(e);
            },
        };
        Ok(GoalState { goal, context, partial_proof: None })
    }

    /// Adds a hypothesis to the goal and extends the context with it.
    pub fn add_hypothesis(&mut self, hyp: Hypothesis) -> (r: Result<(), KernelError>)
        requires
            old(self).context.deep_view().types.len() < u32::MAX as nat,
        ensures
            r is Ok ==> final(self).goal.deep_view() == (GoalV {
                hypotheses: old(self).goal.deep_view().hypotheses.push(hyp.deep_view()),
                ..old(self).goal.deep_view()
            }),
            r is Err ==> final(self).goal.deep_view() == old(self).goal.deep_view(),
    {
        let empty_env: Env = Vec::new();
        let ty_value = match crate::eval::eval(&hyp.ty, &empty_env) {
            Ok(v) => v,
            Err(e) => {
                return Err(e);
            },
        };
        let name = crate::syntax::Name(hyp.name.clone());
        self.context = self.context.extend(name, ty_value);
        self.goal.add_hypothesis(hyp);
        Ok(())
    }

    /// Records a partial proof.
    pub fn set_partial_proof(&mut self, proof_term: Expr)
        ensures
            final(self).partial_proof matches Some(p) && p.deep_view() == proof_term.deep_view(),
            final(self).goal.deep_view() == old(self).goal.deep_view(),
    {
        self.partial_proof = Some(proof_term);
    }

    /// Whether a proof term closes the goal: the goal's proposition is
    /// evaluated in the context and the term checked against it.
    pub fn check_solved(&self, proof_term: &Expr) -> (r: Result<bool, EngineError>)
        requires
            self.context.deep_view().types.len() + (crate::DEFAULT_FUEL as nat) <= u32::MAX as nat,
        ensures
            r is Ok <==> crate::eval::eval_s(
                self.goal.deep_view().proposition,
                self.context.deep_view().env,
                Seq::empty(),
                crate::DEFAULT_FUEL as nat,
            ) is Ok,
            r matches Ok(b) ==> {
                &&& crate::eval::eval_s(
                    self.goal.deep_view().proposition,
                    self.context.deep_view().env,
                    Seq::empty(),
                    crate::DEFAULT_FUEL as nat,
                ) matches Ok(ty)
                &&& b == (crate::check::check_s(
                    self.context.deep_view(),
                    proof_term.deep_view(),
                    ty,
                    crate::DEFAULT_FUEL as nat,
                ) is Ok)
            },
    {
        let expected_ty = match crate::eval::eval(&self.goal.proposition, self.context.env()) {
            Ok(v) => v,
            Err(e) => {
                return Err(EngineError::Kernel(e));
            },
        };
        match crate::check::check(&self.context, proof_term, &expected_ty) {
            Ok(_) => Ok(true),
            Err(_) => Ok(false),
        }
    }
}

} // verus!
