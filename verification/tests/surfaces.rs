//! Tests of the surfaces around the kernel: the command parser, the session
//! engine, descriptions, the bridge, the foundational layer, the signature
//! cache and the batch engine.

use proveit::access::{Announcement, AnnouncementPriority};
use proveit::construction::Construction;
use proveit::description::{DescriptionGenerator, ProofNarrator};
use proveit::formal::{Cube, FormalType, Homotopy, Path, ProofId, UniverseLevel, Verifiable};
use proveit::goals::{Goal, GoalId, Hypothesis};
use proveit::gpu::{init_wasm_gpu, GpuVerificationEngine};
use proveit::parser::{Command, CommandParser};
use proveit::point::{Point, PointId};
use proveit::proof_bridge::ProofBridge;
use proveit::repl::ReplEngine;
use proveit::check::{check, infer, Context};
use proveit::eval::eval;
use proveit::line::{Line, LineId};
use proveit::syntax::{Expr, Name};
use proveit::typecache::{NeuralTypeChecker, TypeCategory, TypeSignature};
use proveit::value::Env;

#[test]
fn test_speech_synthesizer() {
    assert!(true);
}

#[test]
fn test_parse_command() {
    let parser = CommandParser::new();
    let cmd = parser.parse_command("intro").unwrap();
    assert!(matches!(cmd, Command::Intro { .. }));
    let cmd2 = parser.parse_command("exact foo").unwrap();
    match cmd2 {
        Command::Exact { term } => assert_eq!(term, "foo"),
        _ => panic!("expected an exact command"),
    }
    assert!(parser.parse_command("").is_err());
    assert!(parser.parse_command("exact").is_err());
    assert!(parser.parse_command("dance").is_err());
}

#[test]
fn test_parse_expr() {
    let parser = CommandParser::new();
    let expr = parser.parse_expr("Type").unwrap();
    assert!(matches!(expr, Expr::Type(0)));
    let one = parser.parse_expr("Type1").unwrap();
    assert!(matches!(one, Expr::Type(1)));
    let v = parser.parse_expr("x").unwrap();
    assert!(matches!(v, Expr::Var(_, 0)));
    assert!(parser.parse_expr("   ").is_err());
}

#[test]
fn test_repl_quit() {
    let mut engine = ReplEngine::new();
    let reply = engine.process_line("quit");
    assert!(reply.quit);
    let mut engine2 = ReplEngine::new();
    let reply2 = engine2.process_line("help");
    assert!(!reply2.quit);
    assert!(reply2.output.contains("undo"));
}

#[test]
fn test_repl_construct_and_verify() {
    let mut engine = ReplEngine::new();
    let r1 = engine.process_line("construct demo");
    assert!(!r1.quit);
    let r2 = engine.process_line("verify");
    assert!(r2.output.contains("valid"));
}

#[test]
fn test_description_generator() {
    let gen = DescriptionGenerator::new();
    let expr = Expr::Type(0);
    let desc = gen.describe_expr(&expr);
    assert!(desc.contains("Type") || desc.contains("type"));
}

#[test]
fn test_verbosity_levels() {
    let expr = Expr::Var(Name("x".to_string()), 0);
    let low = DescriptionGenerator::new().with_verbosity(1);
    let high = DescriptionGenerator::new().with_verbosity(5);
    let low_desc = low.describe_expr(&expr);
    let high_desc = high.describe_expr(&expr);
    assert!(high_desc.len() >= low_desc.len());
}

#[test]
fn test_technical_language() {
    let expr = Expr::Type(0);
    let technical = DescriptionGenerator::new().with_technical_language(true);
    let tech_desc = technical.describe_expr(&expr);
    assert!(tech_desc.contains("level"));
}

#[test]
fn test_audio_description() {
    let narrator = ProofNarrator::new(3);
    let expr = Expr::Path {
        ty: Box::new(Expr::Type(1)),
        left: Box::new(Expr::Type(0)),
        right: Box::new(Expr::Type(0)),
    };
    assert_eq!(narrator.audio_description(&expr), "Type equals Type");
}

#[test]
fn test_describe_goal_text() {
    let gen = DescriptionGenerator::new();
    let goal = Goal::new(GoalId(0), Expr::Type(0));
    let desc = gen.describe_goal(&goal);
    assert!(desc.starts_with("Prove: "));
}

#[test]
fn test_proof_narrator() {
    let narrator = ProofNarrator::new(3);
    let construction = Construction::new("Test Proof".to_string());
    let narration = narrator.narrate_construction(&construction);
    assert!(!narration.is_empty());
    assert!(narration[0].contains("Test Proof"));
}

#[test]
fn test_proof_bridge_creation() {
    let bridge = ProofBridge::new();
    assert_eq!(bridge.point_terms.len(), 0);
}

#[test]
fn test_register_point() {
    let mut bridge = ProofBridge::new();
    let p = Point::new(PointId(0), Expr::Type(0), "A".to_string());
    assert!(bridge.register_point(&p).is_ok());
    // an untypable proposition is refused
    let bad = Point::new(
        PointId(1),
        Expr::Lambda {
            name: Name("x".to_string()),
            body: Box::new(Expr::Var(Name("x".to_string()), 0)),
        },
        "B".to_string(),
    );
    assert!(bridge.register_point(&bad).is_err());
}

#[test]
fn test_path_creation() {
    let path = Path::new(ProofId(1), ProofId(2));
    assert_eq!(path.dimension, 1);
    assert!(path.verify().is_ok());
}

#[test]
fn test_homotopy() {
    let path1 = Path::new(ProofId(1), ProofId(2));
    let path2 = Path::new(ProofId(1), ProofId(2));
    let homotopy = Homotopy::new(path1, path2);
    assert!(homotopy.is_ok());
    assert!(homotopy.unwrap().verify().is_ok());
}

#[test]
fn test_homotopy_rejects_mismatched_endpoints() {
    let path1 = Path::new(ProofId(1), ProofId(2));
    let path2 = Path::new(ProofId(1), ProofId(3));
    assert!(Homotopy::new(path1, path2).is_err());
}

#[test]
fn test_cube() {
    let mut cube = Cube::new(1);
    cube.add_face(ProofId(1));
    cube.add_face(ProofId(2));
    assert!(cube.verify().is_ok());
}

#[test]
fn test_cube_wrong_face_count() {
    let cube = Cube::new(2);
    assert!(cube.verify().is_err());
}

#[test]
fn test_universe_hierarchy() {
    let u0 = UniverseLevel::zero();
    let u1 = u0.succ();
    let u2 = u1.succ();
    assert!(u0 < u1);
    assert!(u1 < u2);
}

#[test]
fn test_formal_types() {
    let base = FormalType::Base("Point".to_string());
    assert!(base.verify().is_ok());
    let arrow = FormalType::Arrow(Box::new(base.clone()), Box::new(base.clone()));
    assert!(arrow.verify().is_ok());
    assert_eq!(arrow.universe_level(), UniverseLevel(0));
    let u = FormalType::Universe(UniverseLevel(1));
    assert_eq!(u.universe_level(), UniverseLevel(2));
}

#[test]
fn test_announcements() {
    let announcement = Announcement::alert("Test alert".to_string());
    assert_eq!(announcement.priority, AnnouncementPriority::Alert);
    assert_eq!(announcement.text, "Test alert");
}

#[test]
fn test_verification_engine() {
    let engine = GpuVerificationEngine::new();
    assert!(!engine.is_enabled());
    assert!(engine.batch_verify(3).is_err());
    assert!(init_wasm_gpu().is_err());
}

#[test]
fn test_type_signature_creation() {
    let sig = TypeSignature::new(TypeCategory::Base, "Point".to_string());
    assert_eq!(sig.category, TypeCategory::Base);
    assert_eq!(sig.description, "Point");
}

#[test]
fn test_type_registration() {
    let mut checker = NeuralTypeChecker::new();
    let sig = TypeSignature::new(TypeCategory::Base, "Point".to_string());
    let hash = sig.hash;
    checker.register_type(sig);
    assert!(checker.verify_type(hash).unwrap());
    assert!(!checker.verify_type(hash.wrapping_add(1)).unwrap());
    assert_eq!(checker.describe_type(hash), "Point");
}

#[test]
fn test_type_compatibility() {
    let checker = NeuralTypeChecker::new();
    let sig1 = TypeSignature::new(TypeCategory::Base, "Point".to_string());
    let sig2 = TypeSignature::new(TypeCategory::Base, "Line".to_string());
    assert!(checker.check_compatible(&sig1, &sig2).unwrap());
    let sig3 = TypeSignature::new(TypeCategory::Function, "map".to_string());
    assert!(!checker.check_compatible(&sig1, &sig3).unwrap());
}

#[test]
fn lib_test_universe_hierarchy() {
    let checker = NeuralTypeChecker::new();
    let sig1 = TypeSignature::new(TypeCategory::Universe(0), "Type0".to_string());
    let sig2 = TypeSignature::new(TypeCategory::Universe(1), "Type1".to_string());
    assert!(checker.check_compatible(&sig1, &sig2).unwrap());
    assert!(!checker.check_compatible(&sig2, &sig1).unwrap());
}

#[test]
fn test_decimal_rendering() {
    assert_eq!(proveit::text::u64_to_string(0), "0");
    assert_eq!(proveit::text::u64_to_string(42), "42");
    assert_eq!(proveit::text::u64_to_string(90210), "90210");
}

#[test]
fn test_register_line_requires_registered_endpoints() {
    // a line between never-registered points is refused even when its term
    // would type check
    let mut bridge = ProofBridge::new();
    let a = Point::new(PointId(0), Expr::Type(0), "A".to_string());
    let b = Point::new(PointId(1), Expr::Type(0), "B".to_string());
    let id_term = Expr::Lambda {
        name: Name("x".to_string()),
        body: Box::new(Expr::Var(Name("x".to_string()), 0)),
    };
    let line = Line::new(LineId(0), PointId(0), PointId(1), id_term.clone(), "l".to_string());
    assert!(bridge.register_line(&line, &a, &b).is_err());
    // after registering both endpoints the same line is accepted
    assert!(bridge.register_point(&a).is_ok());
    assert!(bridge.register_point(&b).is_ok());
    assert!(bridge.register_line(&line, &a, &b).is_ok());
    assert!(bridge.get_line_proof(LineId(0)).is_some());
}

#[test]
fn test_type_preservation_concrete() {
    // whatever type infer synthesizes, check accepts the expression against
    let ctx = Context::new();
    let arrow = Expr::arrow(Expr::Type(0), Expr::Type(0));
    let ty = infer(&ctx, &arrow).unwrap();
    assert!(check(&ctx, &arrow, &ty).is_ok());
    let app_free = Expr::Path {
        ty: Box::new(Expr::Type(1)),
        left: Box::new(Expr::Type(0)),
        right: Box::new(Expr::Type(0)),
    };
    let ty2 = infer(&ctx, &app_free).unwrap();
    assert!(check(&ctx, &app_free, &ty2).is_ok());
}

#[test]
fn test_conv_under_binders() {
    // conversion opens closures: two arrows with equal domains and equal
    // codomains convert, and differing codomains do not
    let arrow1 = Expr::arrow(Expr::Type(0), Expr::Type(1));
    let arrow2 = Expr::arrow(Expr::Type(0), Expr::Type(1));
    let arrow3 = Expr::arrow(Expr::Type(0), Expr::Type(2));
    let v1 = eval(&arrow1, &Env::new()).unwrap();
    let v2 = eval(&arrow2, &Env::new()).unwrap();
    let v3 = eval(&arrow3, &Env::new()).unwrap();
    assert!(v1.conv(&v2));
    assert!(!v1.conv(&v3));
}

#[test]
fn test_describe_goal_counts_hypotheses() {
    let gen = DescriptionGenerator::new().with_verbosity(4);
    let mut goal = Goal::new(GoalId(0), Expr::Type(0));
    goal.add_hypothesis(Hypothesis::new("h".to_string(), Expr::Type(0)));
    let one = gen.describe_goal(&goal);
    assert!(one.starts_with("Goal: prove "));
    assert!(one.ends_with(" using 1 hypothesis"));
    goal.add_hypothesis(Hypothesis::new("k".to_string(), Expr::Type(0)));
    let two = gen.describe_goal(&goal);
    assert!(two.ends_with(" using 2 hypotheses"));
}
