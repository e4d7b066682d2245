//! Tests of the proof graph: points, lines, insertion, cycle refusal,
//! rollback, path finding and the snapshot codec.

use proveit::codec::{deserialize_construction, serialize_construction};
use proveit::construction::{Construction, ConstructionGraph};
use proveit::line::{estimate_proof_complexity, Line, LineId, ProofPath};
use proveit::point::{estimate_complexity, Point, PointId};
use proveit::syntax::{Expr, Name};

fn point(label: &str) -> Point {
    Point::new(PointId(0), Expr::Type(0), label.to_string())
}

fn line(from: PointId, to: PointId, term: &str, label: &str) -> Line {
    Line::new(
        LineId(0),
        from,
        to,
        Expr::Var(Name(term.to_string()), 0),
        label.to_string(),
    )
}

#[test]
fn test_basic_construction() {
    assert!(true);
}

#[test]
fn test_construction_creation() {
    let construction = Construction::new("Test Proof".to_string());
    assert_eq!(construction.name, "Test Proof");
    assert_eq!(construction.graph.points.len(), 0);
}

#[test]
fn test_add_points() {
    let mut graph = ConstructionGraph::new();
    let id1 = graph.add_point(point("A"));
    let id2 = graph.add_point(point("B"));
    assert_eq!(graph.points.len(), 2);
    assert_ne!(id1, id2);
}

#[test]
fn test_add_line() {
    let mut graph = ConstructionGraph::new();
    let id1 = graph.add_point(point("A"));
    let id2 = graph.add_point(point("B"));
    let line_id = graph.add_line(line(id1, id2, "f", "A to B"));
    assert!(line_id.is_ok());
    assert_eq!(graph.lines.len(), 1);
}

#[test]
fn test_cycle_detection() {
    // scenario: add A -> B, then refuse B -> A, keeping exactly one line
    let mut graph = ConstructionGraph::new();
    let id1 = graph.add_point(point("A"));
    let id2 = graph.add_point(point("B"));
    graph.add_line(line(id1, id2, "f", "A to B")).unwrap();
    let rejected = graph.add_line(line(id2, id1, "g", "B to A"));
    assert!(rejected.is_err());
    assert_eq!(graph.lines.len(), 1);
    assert_eq!(graph.lines[0].from, id1);
    assert_eq!(graph.lines[0].to, id2);
}

#[test]
fn test_rejected_line_rolls_back() {
    // a rejected insertion leaves every part of the graph as it was
    let mut graph = ConstructionGraph::new();
    let id1 = graph.add_point(point("A"));
    let id2 = graph.add_point(point("B"));
    graph.add_line(line(id1, id2, "f", "A to B")).unwrap();
    let points_before = graph.points.len();
    let lines_before = graph.lines.len();
    let out_before: Vec<usize> = graph.outgoing.iter().map(|v| v.len()).collect();
    let inc_before: Vec<usize> = graph.incoming.iter().map(|v| v.len()).collect();
    assert!(graph.add_line(line(id2, id1, "g", "B to A")).is_err());
    assert_eq!(graph.points.len(), points_before);
    assert_eq!(graph.lines.len(), lines_before);
    let out_after: Vec<usize> = graph.outgoing.iter().map(|v| v.len()).collect();
    let inc_after: Vec<usize> = graph.incoming.iter().map(|v| v.len()).collect();
    assert_eq!(out_before, out_after);
    assert_eq!(inc_before, inc_after);
}

#[test]
fn test_self_loop_refused() {
    let mut graph = ConstructionGraph::new();
    let id1 = graph.add_point(point("A"));
    assert!(graph.add_line(line(id1, id1, "f", "A to A")).is_err());
}

#[test]
fn test_missing_endpoint_refused() {
    let mut graph = ConstructionGraph::new();
    let id1 = graph.add_point(point("A"));
    assert!(graph.add_line(line(id1, PointId(7), "f", "off")).is_err());
    assert!(graph.add_line(line(PointId(7), id1, "f", "off")).is_err());
}

#[test]
fn test_find_path() {
    // scenario: lines A -> B -> C; the path from A to C has two hops
    let mut graph = ConstructionGraph::new();
    let id1 = graph.add_point(point("A"));
    let id2 = graph.add_point(point("B"));
    let id3 = graph.add_point(point("C"));
    graph.add_line(line(id1, id2, "f", "f")).unwrap();
    graph.add_line(line(id2, id3, "g", "g")).unwrap();
    let path = graph.find_path(id1, id3);
    assert!(path.is_some());
    let path = path.unwrap();
    assert_eq!(path.lines.len(), 2);
    assert!(path.is_valid(&graph.lines));
    // the composite applies g to f
    let mut path2 = path;
    let composite = path2.compute_composite_proof(&graph.lines);
    assert!(composite.is_some());
    match composite.unwrap() {
        Expr::App { func, arg } => {
            assert!(matches!(*func, Expr::Var(_, _)));
            assert!(matches!(*arg, Expr::Var(_, _)));
        }
        _ => panic!("expected an application"),
    }
}

#[test]
fn test_no_path_when_unreachable() {
    let mut graph = ConstructionGraph::new();
    let id1 = graph.add_point(point("A"));
    let id2 = graph.add_point(point("B"));
    assert!(graph.find_path(id1, id2).is_none());
    assert!(graph.find_path(id1, id1).is_some());
}

#[test]
fn test_axioms_and_theorems() {
    let mut graph = ConstructionGraph::new();
    let id1 = graph.add_point(point("A"));
    let id2 = graph.add_point(point("B"));
    graph.add_line(line(id1, id2, "f", "A to B")).unwrap();
    let axioms = graph.axioms();
    let theorems = graph.theorems();
    assert_eq!(axioms.len(), 1);
    assert_eq!(theorems.len(), 1);
    assert_eq!(axioms[0], id1);
    assert_eq!(theorems[0], id2);
}

#[test]
fn test_graph_verify_passes() {
    let mut graph = ConstructionGraph::new();
    let id1 = graph.add_point(point("A"));
    let id2 = graph.add_point(point("B"));
    graph.add_line(line(id1, id2, "f", "A to B")).unwrap();
    assert!(graph.verify().is_ok());
}

#[test]
fn test_depth_zero_without_lines() {
    let mut graph = ConstructionGraph::new();
    graph.add_point(point("A"));
    graph.add_point(point("B"));
    assert_eq!(graph.compute_depth(), 0);
}

#[test]
fn test_point_creation() {
    let p = point("A");
    assert_eq!(p.label, "A");
}

#[test]
fn point_test_complexity_estimation() {
    let simple = Expr::Type(0);
    assert_eq!(estimate_complexity(&simple), 1);
    let complex = Expr::Pi {
        name: Name("x".to_string()),
        domain: Box::new(Expr::Type(0)),
        codomain: Box::new(Expr::Type(0)),
    };
    assert!(estimate_complexity(&complex) > 1);
}

#[test]
fn test_line_creation() {
    let l = line(PointId(0), PointId(1), "f", "A to B");
    assert_eq!(l.from, PointId(0));
    assert_eq!(l.to, PointId(1));
}

#[test]
fn line_test_complexity_estimation() {
    let simple = Expr::Var(Name("x".to_string()), 0);
    assert_eq!(estimate_proof_complexity(&simple), 1);
    let complex = Expr::App {
        func: Box::new(Expr::Var(Name("f".to_string()), 0)),
        arg: Box::new(Expr::Var(Name("x".to_string()), 0)),
    };
    assert!(estimate_proof_complexity(&complex) > 1);
}

#[test]
fn test_proof_path() {
    let mut path = ProofPath::new(PointId(0), PointId(2));
    path.add_line(LineId(0));
    path.add_line(LineId(1));
    let lines = vec![
        Line::new(
            LineId(0),
            PointId(0),
            PointId(1),
            Expr::Var(Name("f".to_string()), 0),
            "f".to_string(),
        ),
        Line::new(
            LineId(1),
            PointId(1),
            PointId(2),
            Expr::Var(Name("g".to_string()), 0),
            "g".to_string(),
        ),
    ];
    assert!(path.is_valid(&lines));
}

#[test]
fn test_snapshot_round_trip() {
    // serializing and deserializing a construction returns it exactly
    let mut construction = Construction::new("round trip".to_string());
    construction.target = Some(Expr::Type(0));
    let id1 = construction.add_point(point("A"));
    let id2 = construction.add_point(point("B"));
    construction.add_line(line(id1, id2, "f", "A to B")).unwrap();
    let records = serialize_construction(&construction);
    let back = deserialize_construction(&records).unwrap();
    assert_eq!(back.name, construction.name);
    assert_eq!(back.target, construction.target);
    assert_eq!(back.graph.points.len(), construction.graph.points.len());
    assert_eq!(back.graph.lines.len(), construction.graph.lines.len());
    for i in 0..back.graph.points.len() {
        assert_eq!(back.graph.points[i].label, construction.graph.points[i].label);
        assert_eq!(
            back.graph.points[i].proposition,
            construction.graph.points[i].proposition
        );
    }
    for i in 0..back.graph.lines.len() {
        assert_eq!(back.graph.lines[i].from, construction.graph.lines[i].from);
        assert_eq!(back.graph.lines[i].to, construction.graph.lines[i].to);
        assert_eq!(back.graph.lines[i].label, construction.graph.lines[i].label);
        assert_eq!(back.graph.outgoing[i], construction.graph.outgoing[i]);
        assert_eq!(back.graph.incoming[i], construction.graph.incoming[i]);
    }
}

#[test]
fn test_snapshot_rejects_noise() {
    let records = Vec::new();
    assert!(deserialize_construction(&records).is_err());
}

#[test]
fn test_is_complete_finds_target() {
    let mut construction = Construction::new("done".to_string());
    construction.target = Some(Expr::Type(0));
    assert!(!construction.is_complete());
    construction.add_point(point("A"));
    assert!(construction.is_complete());
}

#[test]
fn test_to_dot_mentions_points() {
    let mut construction = Construction::new("two points".to_string());
    let id1 = construction.add_point(point("A"));
    let id2 = construction.add_point(point("B"));
    construction.add_line(line(id1, id2, "f", "step")).unwrap();
    let dot = construction.to_dot();
    assert!(dot.contains("digraph"));
    assert!(dot.contains("p0"));
    assert!(dot.contains("p1"));
    assert!(dot.contains("->"));
}
