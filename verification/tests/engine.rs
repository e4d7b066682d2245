//! Tests of the proof engine: goals, the proof state with undo and redo,
//! tactics, search and verification.

use proveit::goals::{Goal, GoalId, GoalState, Hypothesis, ProofState};
use proveit::search::{evaluate_goal, ProofSearch, SearchResult, SearchStrategy};
use proveit::syntax::{Expr, Name};
use proveit::tactics::{BuiltinTactic, ProofBuilder, TacticLibrary, TacticResult, TacticWithArg};
use proveit::validate::{MessageLevel, VerificationMessage, Verifier};

#[test]
fn test_proof_engine_basics() {
    assert!(true);
}

#[test]
fn test_goal_creation() {
    let goal = Goal::new(GoalId(0), Expr::Type(0));
    assert_eq!(goal.id, GoalId(0));
    assert_eq!(goal.hypotheses.len(), 0);
}

#[test]
fn test_hypothesis() {
    let hyp = Hypothesis::new("x".to_string(), Expr::Type(0));
    assert_eq!(hyp.name, "x");
    assert!(hyp.body.is_none());
}

#[test]
fn test_proof_state() {
    let mut state = ProofState::new();
    let goal = Goal::new(GoalId(0), Expr::Type(0));
    state.add_goal(goal);
    assert_eq!(state.num_goals(), 1);
    assert!(!state.is_complete());
}

#[test]
fn test_proof_state_completion() {
    let mut state = ProofState::with_goal(Expr::Type(0));
    assert_eq!(state.num_goals(), 1);
    state.complete_current_goal().unwrap();
    assert_eq!(state.num_goals(), 0);
    assert!(state.is_complete());
}

#[test]
fn test_undo_redo() {
    let mut state = ProofState::with_goal(Expr::Type(0));
    let initial_goals = state.num_goals();
    state.add_goal(Goal::new(GoalId(1), Expr::Type(1)));
    assert_eq!(state.num_goals(), initial_goals + 1);
    state.undo().unwrap();
    assert_eq!(state.num_goals(), initial_goals);
    state.redo().unwrap();
    assert_eq!(state.num_goals(), initial_goals + 1);
}

#[test]
fn scenario_undo_restores_goals() {
    // one open goal; adding a second and undoing returns to the original
    let mut state = ProofState::with_goal(Expr::Type(0));
    assert_eq!(state.num_goals(), 1);
    state.add_goal(Goal::new(GoalId(1), Expr::Type(1)));
    state.undo().unwrap();
    assert_eq!(state.num_goals(), 1);
    let current = state.current_goal().unwrap();
    assert_eq!(current.proposition, Expr::Type(0));
}

#[test]
fn test_goal_state() {
    let goal = Goal::new(GoalId(0), Expr::Type(0));
    let goal_state = GoalState::new(goal).unwrap();
    assert!(goal_state.partial_proof.is_none());
}

#[test]
fn test_tactic_library() {
    let library = TacticLibrary::new();
    assert!(library.get("intro").is_some());
    assert!(library.get("exact").is_some());
    assert!(library.get("missing").is_none());
}

#[test]
fn test_intro_tactic() {
    // scenario: a function goal; intro leaves one subgoal with one
    // hypothesis and a lambda-wrapping builder
    let goal = Goal::new(
        GoalId(0),
        Expr::Pi {
            name: Name("x".to_string()),
            domain: Box::new(Expr::Type(0)),
            codomain: Box::new(Expr::Type(0)),
        },
    );
    let goal_state = GoalState::new(goal).unwrap();
    match BuiltinTactic::Intro.apply_tactic(&goal_state) {
        TacticResult::Success { subgoals, proof_builder } => {
            assert_eq!(subgoals.len(), 1);
            assert_eq!(subgoals[0].hypotheses.len(), 1);
            assert_eq!(subgoals[0].hypotheses[0].name, "x");
            assert_eq!(subgoals[0].proposition, Expr::Type(0));
            let built = proof_builder.build(&[Expr::Type(0)]).unwrap();
            assert!(matches!(built, Expr::Lambda { .. }));
        }
        TacticResult::Failure(msg) => panic!("the tactic failed: {}", msg),
    }
}

#[test]
fn test_intro_fails_off_function_goals() {
    let goal = Goal::new(GoalId(0), Expr::Type(0));
    let goal_state = GoalState::new(goal).unwrap();
    assert!(matches!(
        BuiltinTactic::Intro.apply_tactic(&goal_state),
        TacticResult::Failure(_)
    ));
}

#[test]
fn test_assumption_tactic_matches_hypothesis() {
    let mut goal = Goal::new(GoalId(0), Expr::Type(0));
    goal.add_hypothesis(Hypothesis::new("h".to_string(), Expr::Type(0)));
    let goal_state = GoalState::new(goal).unwrap();
    assert!(matches!(
        BuiltinTactic::Assumption.apply_tactic(&goal_state),
        TacticResult::Success { .. }
    ));
}

#[test]
fn test_refl_tactic_on_equal_sides() {
    let goal = Goal::new(
        GoalId(0),
        Expr::Path {
            ty: Box::new(Expr::Type(1)),
            left: Box::new(Expr::Type(0)),
            right: Box::new(Expr::Type(0)),
        },
    );
    let goal_state = GoalState::new(goal).unwrap();
    assert!(matches!(
        BuiltinTactic::Refl.apply_tactic(&goal_state),
        TacticResult::Success { .. }
    ));
    let unequal = Goal::new(
        GoalId(1),
        Expr::Path {
            ty: Box::new(Expr::Type(2)),
            left: Box::new(Expr::Type(0)),
            right: Box::new(Expr::Type(1)),
        },
    );
    let unequal_state = GoalState::new(unequal).unwrap();
    assert!(matches!(
        BuiltinTactic::Refl.apply_tactic(&unequal_state),
        TacticResult::Failure(_)
    ));
}

#[test]
fn test_exact_with_argument() {
    // Type0 : Type1, so `exact Type0` closes the goal Type1
    let goal = Goal::new(GoalId(0), Expr::Type(1));
    let goal_state = GoalState::new(goal).unwrap();
    let tactic = TacticWithArg::exact(Expr::Type(0));
    assert!(matches!(
        tactic.apply_to(&goal_state),
        TacticResult::Success { .. }
    ));
    let wrong = TacticWithArg::exact(Expr::Type(1));
    assert!(matches!(
        wrong.apply_to(&goal_state),
        TacticResult::Failure(_)
    ));
}

#[test]
fn test_proof_builder() {
    let builder = ProofBuilder::identity();
    let term = Expr::Type(0);
    let result = builder.build(&[term.clone()]).unwrap();
    assert_eq!(result, term);
    // every supported builder takes exactly one subproof
    assert!(builder.build(&[]).is_err());
}

#[test]
fn test_proof_search_creation() {
    let search = ProofSearch::new();
    assert_eq!(search.strategy, SearchStrategy::IterativeDeepening);
}

#[test]
fn test_search_strategies() {
    let search = ProofSearch::new()
        .with_strategy(SearchStrategy::BreadthFirst)
        .with_max_depth(5)
        .with_max_time(std::time::Duration::from_secs(1));
    assert_eq!(search.strategy, SearchStrategy::BreadthFirst);
    assert_eq!(search.max_depth, 5);
}

#[test]
fn test_goal_evaluation() {
    let goal = Goal::new(GoalId(0), Expr::Type(0));
    let size = evaluate_goal(&goal);
    assert_eq!(size, 1);
}

#[test]
fn test_search_result() {
    let result = SearchResult {
        success: true,
        proof: Some(Expr::Type(0)),
        nodes_explored: 10,
        time_taken: std::time::Duration::from_millis(100),
        max_depth_reached: 3,
        tactic_sequence: vec!["intro".to_string()],
    };
    assert!(result.success);
    assert_eq!(result.nodes_explored, 10);
    assert_eq!(result.tactic_sequence.len(), 1);
}

#[test]
fn test_search_closes_a_reflexive_goal() {
    // the goal Path Type1 Type0 Type0 closes by the reflexivity tactic
    let goal = Goal::new(
        GoalId(0),
        Expr::Path {
            ty: Box::new(Expr::Type(1)),
            left: Box::new(Expr::Type(0)),
            right: Box::new(Expr::Type(0)),
        },
    );
    let search = ProofSearch::new().with_strategy(SearchStrategy::BreadthFirst);
    let result = search.search(goal).unwrap();
    assert!(result.success);
    assert_eq!(result.tactic_sequence, vec!["refl".to_string()]);
}

#[test]
fn test_verifier_creation() {
    let verifier = Verifier::new();
    assert!(verifier.options.normalize_proofs);
}

#[test]
fn test_verify_simple_term() {
    let verifier = Verifier::new();
    let term = Expr::Type(0);
    let ty = Expr::Type(1);
    let result = verifier.verify_term(&term, &ty).unwrap();
    assert!(result.valid);
    let bad = verifier.verify_term(&Expr::Type(1), &Expr::Type(1)).unwrap();
    assert!(!bad.valid);
}

#[test]
fn test_verification_message() {
    let msg = VerificationMessage {
        level: MessageLevel::Info,
        message: "Test message".to_string(),
        location: None,
    };
    assert_eq!(msg.level, MessageLevel::Info);
}

#[test]
fn test_refl_closes_convertible_sides() {
    // the sides differ syntactically but evaluate to the same value, so
    // reflexivity still closes the goal
    let glued_type = Expr::Glue {
        base: Box::new(Expr::Type(0)),
        equivalences: vec![],
    };
    let goal = Goal::new(
        GoalId(0),
        Expr::Path {
            ty: Box::new(Expr::Type(1)),
            left: Box::new(glued_type),
            right: Box::new(Expr::Type(0)),
        },
    );
    let goal_state = GoalState::new(goal).unwrap();
    assert!(matches!(
        BuiltinTactic::Refl.apply_tactic(&goal_state),
        TacticResult::Success { .. }
    ));
}

#[test]
fn test_assumption_matches_up_to_conversion() {
    // a hypothesis convertible with the goal closes it even when the two
    // are written differently
    let mut goal = Goal::new(GoalId(0), Expr::Type(0));
    goal.add_hypothesis(Hypothesis::new(
        "h".to_string(),
        Expr::Glue {
            base: Box::new(Expr::Type(0)),
            equivalences: vec![],
        },
    ));
    let goal_state = GoalState::new(goal).unwrap();
    assert!(matches!(
        BuiltinTactic::Assumption.apply_tactic(&goal_state),
        TacticResult::Success { .. }
    ));
}

#[test]
fn test_apply_opens_the_domain_subgoal() {
    // applying a function of type Type1 -> Type2 opens its domain Type1
    let mut goal = Goal::new(GoalId(0), Expr::Type(2));
    goal.add_hypothesis(Hypothesis::new(
        "f".to_string(),
        Expr::arrow(Expr::Type(1), Expr::Type(2)),
    ));
    let goal_state = GoalState::new(goal).unwrap();
    let tactic = TacticWithArg::apply(Expr::Var(Name("f".to_string()), 0));
    match tactic.apply_to(&goal_state) {
        TacticResult::Success { subgoals, .. } => {
            assert_eq!(subgoals.len(), 1);
            assert!(matches!(subgoals[0].proposition, Expr::Type(1)));
        }
        TacticResult::Failure(m) => panic!("apply failed: {}", m),
    }
}
