//! Automated proof search: breadth-first, depth-first, iterative deepening
//! and best-first strategies over the built-in tactics, under a depth budget
//! and a wall-clock budget.

use vstd::prelude::*;

use crate::errors::EngineError;
use crate::goals::{Goal, GoalState, GoalV, goals_view};
use crate::syntax::{Expr, ExprV};
use crate::tactics::{first_matching_hyp, BuiltinTactic, TacticLibrary, TacticResult};

verus! {

/// One correct `intro` step on a goal: the function goal is replaced by its
/// codomain under the bound name as a new first hypothesis.
pub open spec fn intro_step(g: GoalV, out: Seq<GoalV>) -> bool {
    match g.proposition {
        ExprV::Pi { name, domain, codomain } => {
            &&& out.len() == 1
            &&& out[0].proposition == *codomain
            &&& out[0].hypotheses == seq![
                crate::goals::HypV { name: name, ty: *domain, body: None },
            ] + g.hypotheses
        },
        _ => false,
    }
}

/// One correct `refl` step: a path goal whose two sides are convertible in
/// the goal's context closes.
pub open spec fn refl_step(g: GoalV) -> bool {
    exists|c: crate::check::CtxV| crate::tactics::refl_applies(c, g.proposition)
}

/// One correct application of a named built-in tactic to the first open
/// goal: the goal is replaced by the tactic's subgoals, the rest stand.
pub open spec fn tactic_step_s(gs: Seq<GoalV>, tname: Seq<char>, out: Seq<GoalV>) -> bool {
    &&& gs.len() > 0
    &&& {
        ||| (tname == "intro"@ && exists|subs: Seq<GoalV>|
            #![auto]
            intro_step(gs[0], subs) && out == subs + gs.skip(1))
        ||| (tname == "assumption"@ && (exists|c: crate::check::CtxV|
            first_matching_hyp(c, gs[0].hypotheses, gs[0].proposition) is Some) && out == gs.skip(
            1,
        ))
        ||| (tname == "refl"@ && refl_step(gs[0]) && out == gs.skip(1))
    }
}

/// The named tactics, applied in order to the initial goal, lead to the
/// given open-goal list, each step correct in the sense of `tactic_step_s`.
pub open spec fn trail_steps(start: GoalV, trail: Seq<Seq<char>>, out: Seq<GoalV>) -> bool
    decreases trail.len(),
{
    if trail.len() == 0 {
        out == seq![start]
    } else {
        exists|mid: Seq<GoalV>|
            #![auto]
            trail_steps(start, trail.drop_last(), mid) && tactic_step_s(mid, trail.last(), out)
    }
}

/// Relies on `std::time::Instant`: an opaque monotonic clock reading.
#[verifier::external_type_specification]
#[verifier::external_body]
pub struct ExInstant(std::time::Instant);

/// Relies on `std::time::Instant::now`: a clock reading; nothing can be
/// promised of its value.
pub assume_specification[ std::time::Instant::now ]() -> std::time::Instant;

/// Relies on `std::time::Instant::elapsed`: the time since the reading;
/// nothing can be promised of its value.
pub assume_specification[ std::time::Instant::elapsed ](
    this: &std::time::Instant,
) -> std::time::Duration;

/// Relies on `std::time::Duration::as_millis`: the duration in milliseconds.
pub assume_specification[ std::time::Duration::as_millis ](
    this: &std::time::Duration,
) -> u128;

/// Relies on `std::time::Duration::from_secs`: a duration of that many
/// seconds.
pub assume_specification[ std::time::Duration::from_secs ](secs: u64) -> std::time::Duration;

/// Relies on `std::time::Duration::from_millis`: a duration of that many
/// milliseconds.
pub assume_specification[ std::time::Duration::from_millis ](millis: u64) -> std::time::Duration;

/// The strategy a search uses.
#[derive(Debug, Clone, Copy, PartialEq, Eq, Structural)]
pub enum SearchStrategy {
    /// Explore level by level.
    BreadthFirst,
    /// Explore one branch as deep as allowed first.
    DepthFirst,
    /// Depth-first under a rising depth cap.
    IterativeDeepening,
    /// Smallest goal first; explored level by level here.
    BestFirst,
}

/// The outcome of a search.
#[derive(Debug)]
pub struct SearchResult {
    /// Whether every goal was closed.
    pub success: bool,
    /// The proof term, when one was assembled.  The searcher records the
    /// tactic sequence rather than assembling terms, so this stays empty.
    pub proof: Option<Expr>,
    /// How many nodes the search expanded.
    pub nodes_explored: usize,
    /// How long the search ran.
    pub time_taken: std::time::Duration,
    /// The deepest level reached.
    pub max_depth_reached: usize,
    /// The tactics applied along the successful branch, in order.
    pub tactic_sequence: Vec<String>,
}

/// One frontier entry: open goals, depth, and the tactics taken to get here.
struct SearchNode {
    goals: Vec<Goal>,
    depth: usize,
    trail: Vec<String>,
}

/// The search engine: the tactic library, a strategy and its budgets.
#[derive(Debug)]
pub struct ProofSearch {
    /// The tactics tried at each node.
    pub tactics: TacticLibrary,
    /// The strategy.
    pub strategy: SearchStrategy,
    /// The depth budget.
    pub max_depth: usize,
    /// The wall-clock budget.
    pub max_time: std::time::Duration,
}

impl ProofSearch {
    /// A search with iterative deepening, depth budget 10 and a five-second
    /// clock budget.
    pub fn new() -> (r: Self)
        ensures
            r.strategy == SearchStrategy::IterativeDeepening,
            r.max_depth == 10,
    {
        ProofSearch {
            tactics: TacticLibrary::new(),
            strategy: SearchStrategy::IterativeDeepening,
            max_depth: 10,
            max_time: std::time::Duration::from_secs(5),
        }
    }

    /// The search with another strategy.
    pub fn with_strategy(self, strategy: SearchStrategy) -> (r: Self)
        ensures
            r.strategy == strategy,
            r.max_depth == self.max_depth,
    {
        ProofSearch { strategy, ..self }
    }

    /// The search with another depth budget.
    pub fn with_max_depth(self, depth: usize) -> (r: Self)
        ensures
            r.max_depth == depth,
            r.strategy == self.strategy,
    {
        ProofSearch { max_depth: depth, ..self }
    }

    /// The search with another clock budget.
    pub fn with_max_time(self, duration: std::time::Duration) -> (r: Self)
        ensures
            r.strategy == self.strategy,
            r.max_depth == self.max_depth,
    {
        ProofSearch { max_time: duration, ..self }
    }

    /// Searches for a proof of the goal under the chosen strategy.  A
    /// successful result carries the tactic sequence of the closing branch,
    /// and that sequence provably closes the goal: applied in order, the
    /// named tactics lead from the goal to no open goals.  The searcher does
    /// not assemble proof terms, so `proof` stays empty.
    pub fn search(&self, goal: Goal) -> (r: Result<SearchResult, EngineError>)
        requires
            goal.deep_view().hypotheses.len() + (crate::DEFAULT_FUEL as nat) < u32::MAX as nat,
        ensures
            r is Ok,
            r matches Ok(sr) ==> sr.proof is None && sr.max_depth_reached <= self.max_depth,
            r matches Ok(sr) ==> (sr.success ==> trail_steps(
                goal.deep_view(),
                sr.tactic_sequence.deep_view(),
                Seq::empty(),
            )),
    {
        match self.strategy {
            SearchStrategy::BreadthFirst => self.frontier_search(goal, true, self.max_depth),
            SearchStrategy::DepthFirst => self.frontier_search(goal, false, self.max_depth),
            SearchStrategy::IterativeDeepening => self.iterative_deepening_search(goal),
            SearchStrategy::BestFirst => self.frontier_search(goal, true, self.max_depth),
        }
    }

    /// Depth-first search under a rising depth cap.
    pub fn iterative_deepening_search(&self, goal: Goal) -> (r: Result<SearchResult, EngineError>)
        requires
            goal.deep_view().hypotheses.len() + (crate::DEFAULT_FUEL as nat) < u32::MAX as nat,
        ensures
            r is Ok,
            r matches Ok(sr) ==> sr.proof is None && sr.max_depth_reached <= self.max_depth,
            r matches Ok(sr) ==> (sr.success ==> trail_steps(
                goal.deep_view(),
                sr.tactic_sequence.deep_view(),
                Seq::empty(),
            )),
    {
        let mut depth_limit: usize = 1;
        while depth_limit < self.max_depth
            invariant
                goal.deep_view().hypotheses.len() + (crate::DEFAULT_FUEL as nat) < u32::MAX as nat,
                depth_limit <= self.max_depth || depth_limit == 1,
            decreases self.max_depth - depth_limit,
        {
            let goal_copy = goal.clone();
            let result = match self.frontier_search(goal_copy, false, depth_limit) {
                Ok(sr) => sr,
                Err(e) => {
                    return Err(e);
                },
            };
            if result.success {
                return Ok(result);
            }
            depth_limit = depth_limit + 1;
        }
        self.frontier_search(goal, false, self.max_depth)
    }

    /// The shared frontier search: breadth first when `fifo` holds, depth
    /// first otherwise.  Each expansion tries every registered tactic on the
    /// first open goal; a node with no open goals closes the search.  The
    /// deadline is checked between expansions.
    #[verifier::rlimit(100)]
    #[verifier::spinoff_prover]
    pub fn frontier_search(&self, goal: Goal, fifo: bool, depth_cap: usize) -> (r: Result<
        SearchResult,
        EngineError,
    >)
        requires
            goal.deep_view().hypotheses.len() + (crate::DEFAULT_FUEL as nat) < u32::MAX as nat,
        ensures
            r is Ok,
            r matches Ok(sr) ==> sr.proof is None && sr.max_depth_reached <= depth_cap,
            r matches Ok(sr) ==> (sr.success ==> trail_steps(
                goal.deep_view(),
                sr.tactic_sequence.deep_view(),
                Seq::empty(),
            )),
    {
        let ghost g0 = goal.deep_view();
        let start_time = std::time::Instant::now();
        let budget = self.max_time.as_millis();
        let mut nodes_explored: usize = 0;
        let mut max_depth_reached: usize = 0;
        let mut frontier: Vec<SearchNode> = Vec::new();
        let root_goals = vec_of_one(goal.clone());
        proof {
            crate::goals::lemma_goals_view(root_goals@);
            assert(goals_view(root_goals@) =~= seq![g0]);
        }
        frontier.push(SearchNode { goals: root_goals, depth: 0, trail: Vec::new() });
        proof {
            assert(frontier@[0].trail.deep_view() =~= Seq::<Seq<char>>::empty());
        }
        let mut steps: usize = 0;
        let step_cap: usize = 100000;
        while frontier.len() > 0 && steps < step_cap
            invariant
                g0 == goal.deep_view(),
                max_depth_reached <= depth_cap,
                forall|k: int|
                    0 <= k < frontier@.len()
                        ==> goal_list_bounded(#[trigger] frontier@[k].goals@),
                forall|k: int|
                    0 <= k < frontier@.len() ==> (#[trigger] frontier@[k]).depth <= depth_cap
                        && frontier@[k].trail@.len() == frontier@[k].depth,
                forall|k: int|
                    0 <= k < frontier@.len() ==> trail_steps(
                        g0,
                        (#[trigger] frontier@[k]).trail.deep_view(),
                        goals_view(frontier@[k].goals@),
                    ),
            decreases step_cap - steps,
        {
            steps = steps + 1;
            let ghost pre_frontier = frontier@;
            let node = if fifo {
                frontier.remove(0)
            } else {
                match frontier.pop() {
                    Some(n) => n,
                    None => {
                        break;
                    },
                }
            };
            proof {
                if fifo {
                    assert(node == pre_frontier[0]);
                } else {
                    assert(node == pre_frontier[pre_frontier.len() - 1]);
                }
                assert(goal_list_bounded(node.goals@));
                assert(node.depth <= depth_cap && node.trail@.len() == node.depth);
                assert(trail_steps(g0, node.trail.deep_view(), goals_view(node.goals@)));
            }
            if nodes_explored < usize::MAX {
                nodes_explored = nodes_explored + 1;
            }
            if node.depth > max_depth_reached {
                max_depth_reached = node.depth;
            }
            let elapsed = start_time.elapsed().as_millis();
            if elapsed > budget {
                return Ok(SearchResult {
                    success: false,
                    proof: None,
                    nodes_explored,
                    time_taken: start_time.elapsed(),
                    max_depth_reached,
                    tactic_sequence: Vec::new(),
                });
            }
            if node.goals.len() == 0 {
                proof {
                    crate::goals::lemma_goals_view(node.goals@);
                    assert(goals_view(node.goals@) =~= Seq::<GoalV>::empty());
                    assert(trail_steps(g0, node.trail.deep_view(), Seq::<GoalV>::empty()));
                }
                return Ok(SearchResult {
                    success: true,
                    proof: None,
                    nodes_explored,
                    time_taken: start_time.elapsed(),
                    max_depth_reached,
                    tactic_sequence: node.trail,
                });
            }
            if node.depth >= depth_cap {
                continue;
            }
            let ghost node_goals_v = goals_view(node.goals@);
            proof {
                crate::goals::lemma_goals_view(node.goals@);
            }
            let current_goal = node.goals[0].clone();
            let goal_state = match GoalState::new(current_goal) {
                Ok(gs) => gs,
                Err(_) => {
                    continue;
                },
            };
            let mut t: usize = 0;
            while t < self.tactics.tactics.len()
                invariant
                    goal_list_bounded(node.goals@),
                    node_goals_v == goals_view(node.goals@),
                    node.goals@.len() > 0,
                    goal_state.goal.deep_view() == node_goals_v[0],
                    goal_state.context.deep_view().types.len() + (crate::DEFAULT_FUEL as nat)
                        <= u32::MAX as nat,
                    trail_steps(g0, node.trail.deep_view(), node_goals_v),
                    node.depth < depth_cap,
                    node.trail@.len() == node.depth,
                    max_depth_reached <= depth_cap,
                    forall|k: int|
                        0 <= k < frontier@.len()
                            ==> goal_list_bounded(#[trigger] frontier@[k].goals@),
                    forall|k: int|
                        0 <= k < frontier@.len() ==> (#[trigger] frontier@[k]).depth <= depth_cap
                            && frontier@[k].trail@.len() == frontier@[k].depth,
                    forall|k: int|
                        0 <= k < frontier@.len() ==> trail_steps(
                            g0,
                            (#[trigger] frontier@[k]).trail.deep_view(),
                            goals_view(frontier@[k].goals@),
                        ),
                decreases self.tactics.tactics@.len() - t,
            {
                let tactic = self.tactics.tactics[t];
                match tactic.apply_tactic(&goal_state) {
                    TacticResult::Success { subgoals, proof_builder: _ } => {
                        if goals_small(&subgoals) {
                            let rest = node.goals.len() - 1;
                            if !(rest <= usize::MAX - subgoals.len()) {
                                t = t + 1;
                                continue;
                            }
                            let ghost subs_v = goals_view(subgoals@);
                            proof {
                                crate::goals::lemma_goals_view(subgoals@);
                            }
                            let mut new_goals = subgoals;
                            let mut g: usize = 1;
                            proof {
                                crate::goals::lemma_goals_view(node.goals@);
                                assert(goals_view(new_goals@) =~= subs_v
                                    + node_goals_v.subrange(1, 1));
                            }
                            while g < node.goals.len()
                                invariant
                                    1 <= g <= node.goals@.len(),
                                    goal_list_bounded(node.goals@),
                                    node_goals_v == goals_view(node.goals@),
                                    node_goals_v.len() == node.goals@.len(),
                                    forall|j: int|
                                        0 <= j < node.goals@.len() ==> #[trigger] node_goals_v[j]
                                            == node.goals@[j].deep_view(),
                                    goal_list_bounded(new_goals@),
                                    rest == node.goals@.len() - 1,
                                    subs_v.len() <= usize::MAX - rest,
                                    new_goals@.len() == subs_v.len() + g - 1,
                                    goals_view(new_goals@) =~= subs_v + node_goals_v.subrange(
                                        1,
                                        g as int,
                                    ),
                                decreases node.goals@.len() - g,
                            {
                                let ghost pre = new_goals@;
                                let copy = node.goals[g].clone();
                                push_bounded(&mut new_goals, copy);
                                proof {
                                    assert(new_goals@.drop_last() =~= pre);
                                    assert(goals_view(new_goals@) == goals_view(pre).push(
                                        node.goals@[g as int].deep_view(),
                                    ));
                                    assert(node_goals_v.subrange(1, g + 1 as int).drop_last()
                                        =~= node_goals_v.subrange(1, g as int));
                                    assert(goals_view(new_goals@) =~= subs_v
                                        + node_goals_v.subrange(1, g + 1 as int));
                                }
                                g = g + 1;
                            }
                            proof {
                                assert(node_goals_v.subrange(1, node_goals_v.len() as int)
                                    =~= node_goals_v.skip(1));
                            }
                            let mut trail = crate::value::clone_strings(&node.trail);
                            let nm = tactic.name();
                            trail.push(nm.to_owned());
                            proof {
                                assert(trail.deep_view() =~= node.trail.deep_view().push(nm@));
                                assert(tactic_step_s(
                                    node_goals_v,
                                    nm@,
                                    goals_view(new_goals@),
                                )) by {
                                    match tactic {
                                        BuiltinTactic::Intro => {
                                            assert(intro_step(node_goals_v[0], subs_v));
                                        },
                                        BuiltinTactic::Assumption => {
                                            assert(subs_v =~= Seq::<GoalV>::empty());
                                            assert(goals_view(new_goals@) =~= node_goals_v.skip(1));
                                        },
                                        BuiltinTactic::Refl => {
                                            assert(subs_v =~= Seq::<GoalV>::empty());
                                            assert(goals_view(new_goals@) =~= node_goals_v.skip(1));
                                        },
                                        _ => {
                                            assert(false);
                                        },
                                    }
                                }
                                assert(trail_steps(g0, trail.deep_view(), goals_view(new_goals@)))
                                    by {
                                    assert(trail.deep_view().drop_last() =~= node.trail.deep_view());
                                    assert(trail.deep_view().last() == nm@);
                                }
                            }
                            frontier.push(SearchNode {
                                goals: new_goals,
                                depth: node.depth + 1,
                                trail,
                            });
                        }
                    },
                    TacticResult::Failure(_) => {},
                }
                t = t + 1;
            }
        }
        Ok(SearchResult {
            success: false,
            proof: None,
            nodes_explored,
            time_taken: start_time.elapsed(),
            max_depth_reached,
            tactic_sequence: Vec::new(),
        })
    }
}

/// Every goal of the list keeps its hypotheses within the context bound.
pub open spec fn goal_list_bounded(goals: Seq<Goal>) -> bool {
    forall|k: int|
        0 <= k < goals.len() ==> (#[trigger] goals[k]).deep_view().hypotheses.len() + (
        crate::DEFAULT_FUEL as nat) < u32::MAX as nat
}

/// A list of the one goal.
fn vec_of_one(goal: Goal) -> (r: Vec<Goal>)
    ensures
        r@.len() == 1,
        r@[0] == goal,
{
    let mut v: Vec<Goal> = Vec::new();
    v.push(goal);
    v
}

/// Whether every subgoal keeps its hypotheses within the checker's context
/// capacity: a goal beyond it could not be type checked, so it cannot be
/// explored.
fn goals_small(goals: &Vec<Goal>) -> (r: bool)
    ensures
        r ==> goal_list_bounded(goals@),
{
    let cap: u64 = u32::MAX as u64 - crate::DEFAULT_FUEL;
    let mut i: usize = 0;
    while i < goals.len()
        invariant
            cap == u32::MAX as u64 - crate::DEFAULT_FUEL,
            i <= goals@.len(),
            forall|k: int|
                0 <= k < i ==> (#[trigger] goals@[k]).deep_view().hypotheses.len() + (
                crate::DEFAULT_FUEL as nat) < u32::MAX as nat,
        decreases goals@.len() - i,
    {
        proof {
            crate::goals::lemma_hyps_view(goals@[i as int].hypotheses@);
        }
        if !((goals[i].hypotheses.len() as u64) < cap) {
            return false;
        }
        i = i + 1;
    }
    true
}

/// Pushes a goal, keeping the boundedness of the list.
fn push_bounded(goals: &mut Vec<Goal>, goal: Goal)
    requires
        goal_list_bounded(old(goals)@),
        goal.deep_view().hypotheses.len() + (crate::DEFAULT_FUEL as nat) < u32::MAX as nat,
        old(goals)@.len() < usize::MAX,
    ensures
        final(goals)@ == old(goals)@.push(goal),
        goal_list_bounded(final(goals)@),
{
    goals.push(goal);
}

/// The heuristic size of a goal: the size of its proposition.
pub fn evaluate_goal(goal: &Goal) -> (r: u32)
    requires
        expr_size_s(goal.deep_view().proposition) <= u32::MAX as nat,
    ensures
        r as nat == expr_size_s(goal.deep_view().proposition),
{
    count_expr_size(&goal.proposition)
}

/// The size of an expression along the search heuristic's walk.
pub open spec fn expr_size_s(e: ExprV) -> nat
    decreases e,
{
    match e {
        ExprV::Var(_, _) => 1,
        ExprV::Type(_) => 1,
        ExprV::Pi { domain, codomain, .. } => 1 + expr_size_s(*domain) + expr_size_s(*codomain),
        ExprV::Lambda { body, .. } => 1 + expr_size_s(*body),
        ExprV::App { func, arg } => 1 + expr_size_s(*func) + expr_size_s(*arg),
        ExprV::Path { ty, left, right } => 1 + expr_size_s(*ty) + expr_size_s(*left) + expr_size_s(
            *right,
        ),
        _ => 1,
    }
}

/// Counts the size of an expression.
pub fn count_expr_size(expr: &Expr) -> (r: u32)
    requires
        expr_size_s(expr.deep_view()) <= u32::MAX as nat,
    ensures
        r as nat == expr_size_s(expr.deep_view()),
    decreases expr,
{
    proof {
        reveal_with_fuel(crate::syntax::expr_view, 2);
    }
    match expr {
        Expr::Var(_, _) => 1,
        Expr::Type(_) => 1,
        Expr::Pi { domain, codomain, .. } => 1 + count_expr_size(domain) + count_expr_size(
            codomain,
        ),
        Expr::Lambda { body, .. } => 1 + count_expr_size(body),
        Expr::App { func, arg } => 1 + count_expr_size(func) + count_expr_size(arg),
        Expr::Path { ty, left, right } => 1 + count_expr_size(ty) + count_expr_size(left)
            + count_expr_size(right),
        _ => 1,
    }
}

} // verus!
