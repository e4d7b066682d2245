//! Construction verification: checking terms, points and lines against the
//! kernel, with collected messages.

use vstd::prelude::*;

use crate::check::{check_fuel, check_s, infer_fuel, infer_s, Context};
use crate::construction::{graph_wf, Construction};
use crate::errors::{EngineError, ErrKind, KernelError};
use crate::eval::{eval_fuel, eval_s};
use crate::line::{Line, LineId, LineV};
use crate::point::{Point, PointId, PointV};
use crate::syntax::{Expr, ExprV, Name};
use crate::value::{env_view, DimEnv, Value, ValueV};

verus! {

/// Options for verification.
#[derive(Debug, Clone)]
pub struct VerificationOptions {
    /// Whether to read checked proofs back to normal form.
    pub normalize_proofs: bool,
    /// Whether to verify the geometric correspondence.
    pub verify_geometry: bool,
    /// An advisory time budget, in milliseconds.
    pub timeout_ms: Option<u64>,
}

impl Default for VerificationOptions {
    /// Normalization and geometry checks on, with a five-second budget.
    fn default() -> (r: Self)
        ensures
            r.normalize_proofs,
            r.verify_geometry,
            r.timeout_ms == Some(5000u64),
    {
        VerificationOptions { normalize_proofs: true, verify_geometry: true, timeout_ms: Some(5000) }
    }
}

/// Severity of a verification message.
#[derive(Debug, Clone, Copy, PartialEq, Eq, Structural)]
pub enum MessageLevel {
    /// Information.
    Info,
    /// A warning.
    Warning,
    /// An error.
    Error,
}

/// Where a message points.
#[derive(Debug, Clone)]
pub struct ProofLocation {
    /// Line number in a proof script.
    pub line: Option<usize>,
    /// Column number.
    pub column: Option<usize>,
    /// A point of the construction.
    pub point_id: Option<PointId>,
    /// A line of the construction.
    pub line_id: Option<LineId>,
}

/// One verification message.
#[derive(Debug, Clone)]
pub struct VerificationMessage {
    /// Its severity.
    pub level: MessageLevel,
    /// Its text.
    pub message: String,
    /// Where it points, if anywhere.
    pub location: Option<ProofLocation>,
}

/// The outcome of a verification.
#[derive(Debug)]
pub struct VerificationResult {
    /// Whether everything checked.
    pub valid: bool,
    /// The collected messages.
    pub messages: Vec<VerificationMessage>,
    /// How long verification took, in milliseconds.
    pub time_ms: u64,
}

/// Whether a point's proposition infers a type in the context.
pub open spec fn point_ok(c: crate::check::CtxV, p: PointV) -> bool {
    infer_s(c, p.proposition, crate::DEFAULT_FUEL as nat) is Ok
}

/// Whether a line's proof term checks against the arrow from its source's
/// proposition to its target's.
pub open spec fn line_ok(c: crate::check::CtxV, l: LineV, from: PointV, to: PointV) -> bool {
    &&& eval_s(
        ExprV::Pi {
            name: "_"@,
            domain: Box::new(from.proposition),
            codomain: Box::new(to.proposition),
        },
        c.env,
        Seq::empty(),
        crate::DEFAULT_FUEL as nat,
    ) matches Ok(ty)
    &&& check_s(c, l.proof_term, ty, crate::DEFAULT_FUEL as nat) is Ok
}


/// Milliseconds since the given clock reading, saturating.
fn elapsed_ms(start: &std::time::Instant) -> u64 {
    let ms = start.elapsed().as_millis();
    if ms > u64::MAX as u128 {
        u64::MAX
    } else {
        ms as u64
    }
}

/// Appends all messages of a result to the collected list.
fn append_messages(dst: &mut Vec<VerificationMessage>, src: &Vec<VerificationMessage>)
{
    let mut k: usize = 0;
    while k < src.len()
        invariant
            k <= src@.len(),
        decreases src@.len() - k,
    {
        if dst.len() < usize::MAX {
            dst.push(src[k].clone());
        }
        k = k + 1;
    }
}

/// The verifier: a context plus options.
#[derive(Debug)]
pub struct Verifier {
    /// The axioms and definitions in scope.
    pub context: Context,
    /// The options.
    pub options: VerificationOptions,
}

impl Verifier {
    /// A verifier with an empty context and the default options.
    pub fn new() -> (r: Self)
        ensures
            r.context.deep_view().types.len() == 0,
            r.options.normalize_proofs,
    {
        Verifier { context: Context::new(), options: VerificationOptions::default() }
    }

    /// A verifier with the given options.
    pub fn with_options(options: VerificationOptions) -> (r: Self)
        ensures
            r.context.deep_view().types.len() == 0,
    {
        Verifier { context: Context::new(), options }
    }

    /// The context.
    pub fn context(&self) -> (r: &Context)
        ensures
            r.deep_view() == self.context.deep_view(),
    {
        &self.context
    }

    /// Adds an axiom: its type is evaluated in the empty environment and
    /// bound under the name.
    pub fn add_axiom(&mut self, name: String, ty: Expr) -> (r: Result<(), EngineError>)
        requires
            old(self).context.deep_view().types.len() < u32::MAX as nat,
        ensures
            r is Ok <==> crate::eval::eval_s(
                ty.deep_view(),
                Seq::empty(),
                Seq::empty(),
                crate::DEFAULT_FUEL as nat,
            ) is Ok,
            r is Ok ==> (crate::eval::eval_s(
                ty.deep_view(),
                Seq::empty(),
                Seq::empty(),
                crate::DEFAULT_FUEL as nat,
            ) matches Ok(tv) && final(self).context.deep_view() == crate::check::ctx_extend_s(
                old(self).context.deep_view(),
                name@,
                tv,
            )),
            r is Err ==> final(self).context.deep_view() == old(self).context.deep_view(),
    {
        let ghost pre_ty = ty.deep_view();
        let empty_env: crate::value::Env = Vec::new();
        proof {
            assert(env_view(empty_env@) =~= Seq::<ValueV>::empty());
        }
        let ty_value = match crate::eval::eval(&ty, &empty_env) {
            Ok(v) => v,
            Err(e) => {
                return Err(EngineError::Kernel(e));
            },
        };
        self.context = self.context.extend(Name(name), ty_value);
        Ok(())
    }

    /// Verifies one term against an expected type: the type is evaluated and
    /// the term checked against it.  The result is valid exactly when both
    /// steps go through.
    pub fn verify_term(&self, term: &Expr, expected_type: &Expr) -> (r: Result<
        VerificationResult,
        EngineError,
    >)
        requires
            self.context.deep_view().types.len() + (crate::DEFAULT_FUEL as nat) <= u32::MAX as nat,
        ensures
            r is Ok,
            r matches Ok(vr) ==> vr.valid == {
                &&& eval_s(
                    expected_type.deep_view(),
                    self.context.deep_view().env,
                    Seq::empty(),
                    crate::DEFAULT_FUEL as nat,
                ) matches Ok(ty)
                &&& check_s(
                    self.context.deep_view(),
                    term.deep_view(),
                    ty,
                    crate::DEFAULT_FUEL as nat,
                ) is Ok
            },
    {
        let started = std::time::Instant::now();
        let mut messages: Vec<VerificationMessage> = Vec::new();
        let empty_dims: DimEnv = Vec::new();
        let expected_val = match eval_fuel(
            expected_type,
            self.context.env(),
            &empty_dims,
            crate::DEFAULT_FUEL,
        ) {
            Ok(v) => v,
            Err(e) => {
                let mut m = String::new();
                m.append("the expected type does not evaluate: ");
                m.append(e.message().as_str());
                messages.push(
                    VerificationMessage { level: MessageLevel::Error, message: m, location: None },
                );
                return Ok(VerificationResult { valid: false, messages, time_ms: elapsed_ms(&started) });
            },
        };
        match check_fuel(&self.context, term, &expected_val, crate::DEFAULT_FUEL) {
            Ok(_) => {
                let mut m = String::new();
                m.append("type checking succeeded");
                messages.push(
                    VerificationMessage { level: MessageLevel::Info, message: m, location: None },
                );
            },
            Err(e) => {
                let mut m = String::new();
                m.append("type checking failed: ");
                m.append(e.message().as_str());
                messages.push(
                    VerificationMessage { level: MessageLevel::Error, message: m, location: None },
                );
                return Ok(VerificationResult { valid: false, messages, time_ms: elapsed_ms(&started) });
            },
        };
        if self.options.normalize_proofs {
            let term_val = eval_fuel(term, self.context.env(), &empty_dims, crate::DEFAULT_FUEL);
            match term_val {
                Ok(v) => match crate::normalize::normalize(&v) {
                    Ok(_normal) => {
                        let mut m = String::new();
                        m.append("the proof reads back to a normal form");
                        messages.push(
                            VerificationMessage {
                                level: MessageLevel::Info,
                                message: m,
                                location: None,
                            },
                        );
                    },
                    Err(_) => {},
                },
                Err(_) => {},
            }
        }
        Ok(VerificationResult { valid: true, messages, time_ms: elapsed_ms(&started) })
    }

    /// Verifies one point: its proposition must infer a type.
    pub fn verify_point(&self, point: &Point) -> (r: Result<VerificationResult, EngineError>)
        requires
            self.context.deep_view().types.len() + (crate::DEFAULT_FUEL as nat) <= u32::MAX as nat,
        ensures
            r is Ok,
            r matches Ok(vr) ==> vr.valid == point_ok(self.context.deep_view(), point.deep_view()),
    {
        let started = std::time::Instant::now();
        let mut messages: Vec<VerificationMessage> = Vec::new();
        let location = ProofLocation {
            line: None,
            column: None,
            point_id: Some(point.id),
            line_id: None,
        };
        match infer_fuel(&self.context, &point.proposition, crate::DEFAULT_FUEL) {
            Ok(_) => {
                let mut m = String::new();
                m.append("the point's proposition has a type");
                messages.push(
                    VerificationMessage {
                        level: MessageLevel::Info,
                        message: m,
                        location: Some(location),
                    },
                );
                Ok(VerificationResult { valid: true, messages, time_ms: elapsed_ms(&started) })
            },
            Err(e) => {
                let mut m = String::new();
                m.append("the point's proposition has no type: ");
                m.append(e.message().as_str());
                messages.push(
                    VerificationMessage {
                        level: MessageLevel::Error,
                        message: m,
                        location: Some(location),
                    },
                );
                Ok(VerificationResult { valid: false, messages, time_ms: elapsed_ms(&started) })
            },
        }
    }

    /// Verifies one line: its proof term must check against the arrow from
    /// its source's proposition to its target's.
    pub fn verify_line(&self, line: &Line, from: &Point, to: &Point) -> (r: Result<
        VerificationResult,
        EngineError,
    >)
        requires
            self.context.deep_view().types.len() + (crate::DEFAULT_FUEL as nat) <= u32::MAX as nat,
    ensures
            r is Ok,
            r matches Ok(vr) ==> vr.valid == line_ok(
                self.context.deep_view(),
                line.deep_view(),
                from.deep_view(),
                to.deep_view(),
            ),
    {
        proof {
            reveal_with_fuel(crate::syntax::expr_view, 2);
        }
        let started = std::time::Instant::now();
        let mut messages: Vec<VerificationMessage> = Vec::new();
        let location = ProofLocation {
            line: None,
            column: None,
            point_id: None,
            line_id: Some(line.id),
        };
        let expected_expr = Expr::arrow(from.proposition.clone(), to.proposition.clone());
        let empty_dims: DimEnv = Vec::new();
        let expected_val = match eval_fuel(
            &expected_expr,
            self.context.env(),
            &empty_dims,
            crate::DEFAULT_FUEL,
        ) {
            Ok(v) => v,
            Err(e) => {
                let mut m = String::new();
                m.append("the line's arrow type does not evaluate: ");
                m.append(e.message().as_str());
                messages.push(
                    VerificationMessage {
                        level: MessageLevel::Error,
                        message: m,
                        location: Some(location),
                    },
                );
                return Ok(VerificationResult { valid: false, messages, time_ms: elapsed_ms(&started) });
            },
        };
        match check_fuel(&self.context, &line.proof_term, &expected_val, crate::DEFAULT_FUEL) {
            Ok(_) => {
                let mut m = String::new();
                m.append("the line's proof term has the arrow type");
                messages.push(
                    VerificationMessage {
                        level: MessageLevel::Info,
                        message: m,
                        location: Some(location),
                    },
                );
                Ok(VerificationResult { valid: true, messages, time_ms: elapsed_ms(&started) })
            },
            Err(e) => {
                let mut m = String::new();
                m.append("the line's proof term does not have the arrow type: ");
                m.append(e.message().as_str());
                messages.push(
                    VerificationMessage {
                        level: MessageLevel::Error,
                        message: m,
                        location: Some(location),
                    },
                );
                Ok(VerificationResult { valid: false, messages, time_ms: elapsed_ms(&started) })
            },
        }
    }

    /// Verifies an entire construction: the graph structure, every point and
    /// every line.  The result is valid exactly when every point's
    /// proposition has a type and every line's proof term has its arrow type.
    #[verifier::rlimit(100)]
    pub fn verify_construction(&self, construction: &Construction) -> (r: Result<
        VerificationResult,
        EngineError,
    >)
        requires
            graph_wf(construction.deep_view().graph),
            self.context.deep_view().types.len() + (crate::DEFAULT_FUEL as nat) <= u32::MAX as nat,
        ensures
            r is Ok,
            r matches Ok(vr) ==> vr.valid == {
                &&& forall|i: int|
                    0 <= i < construction.deep_view().graph.points.len() ==> point_ok(
                        self.context.deep_view(),
                        #[trigger] construction.deep_view().graph.points[i],
                    )
                &&& forall|j: int|
                    0 <= j < construction.deep_view().graph.lines.len() ==> line_ok(
                        self.context.deep_view(),
                        #[trigger] construction.deep_view().graph.lines[j],
                        construction.deep_view().graph.points[construction.deep_view().graph.lines[j].from as int],
                        construction.deep_view().graph.points[construction.deep_view().graph.lines[j].to as int],
                    )
            },
    {
        let started = std::time::Instant::now();
        let ghost cv = construction.deep_view();
        proof {
            crate::construction::lemma_points_view(construction.graph.points@);
            crate::line::lemma_lines_view(construction.graph.lines@);
        }
        let mut messages: Vec<VerificationMessage> = Vec::new();
        let mut valid = true;
        match construction.verify() {
            Ok(_) => {
                let mut m = String::new();
                m.append("the graph structure is valid");
                messages.push(
                    VerificationMessage { level: MessageLevel::Info, message: m, location: None },
                );
            },
            Err(e) => {
                let mut m = String::new();
                m.append("the graph structure is invalid: ");
                m.append(e.message().as_str());
                messages.push(
                    VerificationMessage { level: MessageLevel::Error, message: m, location: None },
                );
                valid = false;
            },
        };
        let mut i: usize = 0;
        while i < construction.graph.points.len()
            invariant
                cv == construction.deep_view(),
                graph_wf(cv.graph),
                self.context.deep_view().types.len() + (crate::DEFAULT_FUEL as nat)
                    <= u32::MAX as nat,
                cv.graph.points.len() == construction.graph.points@.len(),
                forall|j: int|
                    0 <= j < construction.graph.points@.len() ==> #[trigger] cv.graph.points[j]
                        == construction.graph.points@[j].deep_view(),
                i <= construction.graph.points@.len(),
                valid ==> forall|j: int|
                    0 <= j < i ==> point_ok(
                        self.context.deep_view(),
                        #[trigger] cv.graph.points[j],
                    ),
                !valid ==> exists|j: int|
                    0 <= j < i && !point_ok(
                        self.context.deep_view(),
                        #[trigger] cv.graph.points[j],
                    ),
            decreases construction.graph.points@.len() - i,
        {
            let ghost pre_valid = valid;
            let result = match self.verify_point(&construction.graph.points[i]) {
                Ok(vr) => vr,
                Err(e) => {
                    return Err(e);
                },
            };
            append_messages(&mut messages, &result.messages);
            if !result.valid {
                valid = false;
                proof {
                    assert(!point_ok(self.context.deep_view(), cv.graph.points[i as int]));
                }
            }
            i = i + 1;
        }
        proof {
            if !valid {
                assert(!(forall|j: int|
                    0 <= j < cv.graph.points.len() ==> point_ok(
                        self.context.deep_view(),
                        #[trigger] cv.graph.points[j],
                    )));
            }
        }
        let mut j: usize = 0;
        while j < construction.graph.lines.len()
            invariant
                cv == construction.deep_view(),
                graph_wf(cv.graph),
                self.context.deep_view().types.len() + (crate::DEFAULT_FUEL as nat)
                    <= u32::MAX as nat,
                cv.graph.points.len() == construction.graph.points@.len(),
                forall|k2: int|
                    0 <= k2 < construction.graph.points@.len() ==> #[trigger] cv.graph.points[k2]
                        == construction.graph.points@[k2].deep_view(),
                cv.graph.lines.len() == construction.graph.lines@.len(),
                forall|k2: int|
                    0 <= k2 < construction.graph.lines@.len() ==> #[trigger] cv.graph.lines[k2]
                        == construction.graph.lines@[k2].deep_view(),
                j <= construction.graph.lines@.len(),
                valid ==> ((forall|k2: int|
                    0 <= k2 < cv.graph.points.len() ==> point_ok(
                        self.context.deep_view(),
                        #[trigger] cv.graph.points[k2],
                    )) && (forall|k2: int|
                    0 <= k2 < j ==> line_ok(
                        self.context.deep_view(),
                        #[trigger] cv.graph.lines[k2],
                        cv.graph.points[cv.graph.lines[k2].from as int],
                        cv.graph.points[cv.graph.lines[k2].to as int],
                    ))),
                !valid ==> !((forall|k2: int|
                    0 <= k2 < cv.graph.points.len() ==> point_ok(
                        self.context.deep_view(),
                        #[trigger] cv.graph.points[k2],
                    )) && (forall|k2: int|
                    0 <= k2 < cv.graph.lines.len() ==> line_ok(
                        self.context.deep_view(),
                        #[trigger] cv.graph.lines[k2],
                        cv.graph.points[cv.graph.lines[k2].from as int],
                        cv.graph.points[cv.graph.lines[k2].to as int],
                    ))),
            decreases construction.graph.lines@.len() - j,
        {
            let line = &construction.graph.lines[j];
            let n_pts = construction.graph.points.len();
            proof {
                assert(cv.graph.lines[j as int].from < cv.graph.points.len());
                assert(cv.graph.lines[j as int].to < cv.graph.points.len());
                assert(cv.graph.points.len() == n_pts);
                assert(line.from.0 as usize as u64 == line.from.0);
                assert(line.to.0 as usize as u64 == line.to.0);
            }
            let from = &construction.graph.points[line.from.0 as usize];
            let to = &construction.graph.points[line.to.0 as usize];
            let result = match self.verify_line(line, from, to) {
                Ok(vr) => vr,
                Err(e) => {
                    return Err(e);
                },
            };
            append_messages(&mut messages, &result.messages);
            if !result.valid {
                valid = false;
                proof {
                    assert(!line_ok(
                        self.context.deep_view(),
                        cv.graph.lines[j as int],
                        cv.graph.points[cv.graph.lines[j as int].from as int],
                        cv.graph.points[cv.graph.lines[j as int].to as int],
                    ));
                }
            }
            j = j + 1;
        }
        Ok(VerificationResult { valid, messages, time_ms: elapsed_ms(&started) })
    }
}

} // verus!
