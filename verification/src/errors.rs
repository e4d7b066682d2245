//! Error values of the kernel and the layers above it.  All user-facing
//! failures are values; verified functions never panic.

use vstd::prelude::*;

verus! {

/// The kind of a kernel error, with payloads stripped.  Contracts speak of
/// kinds; the executable errors carry human-readable text as well.
#[derive(PartialEq, Eq, Structural, Debug, Clone, Copy)]
pub enum ErrKind {
    TypeMismatch,
    UnboundVariable,
    CannotInfer,
    UnboundDimension,
    InvalidKan,
    SmoothnessViolation,
    UniverseLevel,
    OutOfFuel,
}

/// Errors raised by evaluation, normalization and type checking.
#[derive(Debug, Clone)]
pub enum KernelError {
    /// A term did not have the expected type.
    TypeMismatch { expected: String, got: String },
    /// A de Bruijn index pointed outside the environment.
    UnboundVariable(String),
    /// The term needs a type annotation to be checked.
    CannotInfer(String),
    /// A dimension variable was not bound.
    UnboundDimension(String),
    /// A malformed face system or Kan operand.
    InvalidKan(String),
    /// A smooth path asked for more differentiability than allowed.
    SmoothnessViolation { expected: u32, got: u32 },
    /// Universe inconsistency.
    UniverseLevel,
    /// The step budget of the kernel call ran out.
    OutOfFuel,
}

impl KernelError {
    /// The kind of this error.
    pub open spec fn kind(&self) -> ErrKind {
        match self {
            KernelError::TypeMismatch { .. } => ErrKind::TypeMismatch,
            KernelError::UnboundVariable(_) => ErrKind::UnboundVariable,
            KernelError::CannotInfer(_) => ErrKind::CannotInfer,
            KernelError::UnboundDimension(_) => ErrKind::UnboundDimension,
            KernelError::InvalidKan(_) => ErrKind::InvalidKan,
            KernelError::SmoothnessViolation { .. } => ErrKind::SmoothnessViolation,
            KernelError::UniverseLevel => ErrKind::UniverseLevel,
            KernelError::OutOfFuel => ErrKind::OutOfFuel,
        }
    }

    /// Human-readable description of the error.
    pub fn message(&self) -> String {
        let mut s = String::new();
        match self {
            KernelError::TypeMismatch { expected, got } => {
                s.append("type mismatch: expected ");
                s.append(expected.as_str());
                s.append(", got ");
                s.append(got.as_str());
            },
            KernelError::UnboundVariable(d) => {
                s.append("variable not found: ");
                s.append(d.as_str());
            },
            KernelError::CannotInfer(d) => {
                s.append("cannot infer type for: ");
                s.append(d.as_str());
            },
            KernelError::UnboundDimension(d) => {
                s.append("dimension variable not found: ");
                s.append(d.as_str());
            },
            KernelError::InvalidKan(d) => {
                s.append("invalid Kan operation: ");
                s.append(d.as_str());
            },
            KernelError::SmoothnessViolation { expected, got } => {
                s.append("smoothness violation: expected C^");
                s.append(crate::text::u32_to_string(*expected).as_str());
                s.append(" but got C^");
                s.append(crate::text::u32_to_string(*got).as_str());
            },
            KernelError::UniverseLevel => {
                s.append("universe level inconsistency");
            },
            KernelError::OutOfFuel => {
                s.append("kernel step budget exhausted");
            },
        }
        s
    }
}

/// Kinds of errors of the proof-graph layer.
#[derive(PartialEq, Eq, Structural, Debug, Clone, Copy)]
pub enum GeoErrKind {
    InvalidConstruction,
    ConstraintViolation,
    CannotConstruct,
    DependencyCycle,
    ProofCorrespondence,
}

/// Errors of the proof-graph layer.
#[derive(Debug, Clone)]
pub enum GeometryError {
    /// An edit referred to a point or line that does not exist.
    InvalidConstruction(String),
    /// A geometric constraint was violated.
    ConstraintViolation(String),
    /// The requested construction cannot be made.
    CannotConstruct(String),
    /// The edit would create a dependency cycle; it was rolled back.
    DependencyCycle,
    /// The graph does not correspond to a well-typed proof.
    ProofCorrespondence(String),
}

impl GeometryError {
    /// The kind of this error.
    pub open spec fn kind(&self) -> GeoErrKind {
        match self {
            GeometryError::InvalidConstruction(_) => GeoErrKind::InvalidConstruction,
            GeometryError::ConstraintViolation(_) => GeoErrKind::ConstraintViolation,
            GeometryError::CannotConstruct(_) => GeoErrKind::CannotConstruct,
            GeometryError::DependencyCycle => GeoErrKind::DependencyCycle,
            GeometryError::ProofCorrespondence(_) => GeoErrKind::ProofCorrespondence,
        }
    }

    /// Human-readable description of the error.
    pub fn message(&self) -> String {
        let mut s = String::new();
        match self {
            GeometryError::InvalidConstruction(d) => {
                s.append("invalid construction: ");
                s.append(d.as_str());
            },
            GeometryError::ConstraintViolation(d) => {
                s.append("geometric constraint violation: ");
                s.append(d.as_str());
            },
            GeometryError::CannotConstruct(d) => {
                s.append("cannot construct: ");
                s.append(d.as_str());
            },
            GeometryError::DependencyCycle => {
                s.append("dependency cycle detected");
            },
            GeometryError::ProofCorrespondence(d) => {
                s.append("proof correspondence error: ");
                s.append(d.as_str());
            },
        }
        s
    }
}

/// Kinds of errors of the proof engine.
#[derive(PartialEq, Eq, Structural, Debug, Clone, Copy)]
pub enum EngineErrKind {
    TacticFailed,
    GoalNotFound,
    InvalidProofState,
    VerificationFailed,
    SearchTimeout,
    NoSolution,
    TypeError,
    Kernel,
    Geometry,
}

/// Errors of the proof engine.
#[derive(Debug, Clone)]
pub enum EngineError {
    /// A tactic could not be applied; the reason is given.
    TacticFailed(String),
    /// There was no goal to operate on.
    GoalNotFound,
    /// The proof state cannot perform the request.
    InvalidProofState(String),
    /// Verification failed.
    VerificationFailed(String),
    /// Proof search exceeded its time budget.
    SearchTimeout,
    /// Proof search exhausted its space without a proof.
    NoSolution,
    /// A type error outside the kernel proper.
    TypeError(String),
    /// A kernel error, carried through.
    Kernel(KernelError),
    /// A graph error, carried through.
    Geometry(GeometryError),
}

impl EngineError {
    /// The kind of this error.
    pub open spec fn kind(&self) -> EngineErrKind {
        match self {
            EngineError::TacticFailed(_) => EngineErrKind::TacticFailed,
            EngineError::GoalNotFound => EngineErrKind::GoalNotFound,
            EngineError::InvalidProofState(_) => EngineErrKind::InvalidProofState,
            EngineError::VerificationFailed(_) => EngineErrKind::VerificationFailed,
            EngineError::SearchTimeout => EngineErrKind::SearchTimeout,
            EngineError::NoSolution => EngineErrKind::NoSolution,
            EngineError::TypeError(_) => EngineErrKind::TypeError,
            EngineError::Kernel(_) => EngineErrKind::Kernel,
            EngineError::Geometry(_) => EngineErrKind::Geometry,
        }
    }

    /// Human-readable description of the error.
    pub fn message(&self) -> String {
        let mut s = String::new();
        match self {
            EngineError::TacticFailed(d) => {
                s.append("tactic failed: ");
                s.append(d.as_str());
            },
            EngineError::GoalNotFound => {
                s.append("goal not found");
            },
            EngineError::InvalidProofState(d) => {
                s.append("invalid proof state: ");
                s.append(d.as_str());
            },
            EngineError::VerificationFailed(d) => {
                s.append("verification failed: ");
                s.append(d.as_str());
            },
            EngineError::SearchTimeout => {
                s.append("search timeout");
            },
            EngineError::NoSolution => {
                s.append("no solution found");
            },
            EngineError::TypeError(d) => {
                s.append("type error: ");
                s.append(d.as_str());
            },
            EngineError::Kernel(e) => {
                s.append(e.message().as_str());
            },
            EngineError::Geometry(e) => {
                s.append(e.message().as_str());
            },
        }
        s
    }
}

/// Errors of the command layer.
#[derive(Debug, Clone)]
pub enum CliError {
    /// The input line could not be parsed.
    ParseError(String),
    /// The command could not be carried out.
    CommandError(String),
}

impl CliError {
    /// Human-readable description of the error.
    pub fn message(&self) -> String {
        let mut s = String::new();
        match self {
            CliError::ParseError(d) => {
                s.append("parse error: ");
                s.append(d.as_str());
            },
            CliError::CommandError(d) => {
                s.append("command error: ");
                s.append(d.as_str());
            },
        }
        s
    }
}

/// Errors of the foundational layer.
#[derive(Debug, Clone)]
pub enum ProveItError {
    /// A type error.
    TypeError(String),
    /// Verification failed.
    VerificationError(String),
    /// A spatial-reasoning error.
    SpatialError(String),
    /// An accessibility-layer error.
    AccessibilityError(String),
}

impl ProveItError {
    /// Human-readable description of the error.
    pub fn message(&self) -> String {
        let mut s = String::new();
        match self {
            ProveItError::TypeError(d) => {
                s.append("type error: ");
                s.append(d.as_str());
            },
            ProveItError::VerificationError(d) => {
                s.append("verification failed: ");
                s.append(d.as_str());
            },
            ProveItError::SpatialError(d) => {
                s.append("spatial error: ");
                s.append(d.as_str());
            },
            ProveItError::AccessibilityError(d) => {
                s.append("accessibility error: ");
                s.append(d.as_str());
            },
        }
        s
    }
}

} // verus!
