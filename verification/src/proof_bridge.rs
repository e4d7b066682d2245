//! The bridge between the proof graph and the kernel: registering points and
//! lines with type checks, lifting paths to composite proof terms, and
//! rebuilding a graph skeleton from a term.

use vstd::prelude::*;

use crate::check::{check_fuel, check_s, infer_fuel, infer_s, ctx_extend_s, Context, CtxV};
use crate::construction::{graph_wf, Construction, ConstructionGraph};
use crate::errors::{GeoErrKind, GeometryError};
use crate::eval::{eval_fuel, eval_s};
use crate::line::{composite_s, find_line_s, lines_view, Line, LineId, LineV, ProofPath};
use crate::point::{Point, PointId, PointV};
use crate::syntax::{expr_view, Expr, ExprV, Name};
use crate::value::{DimEnv, Env, Value, ValueV};

verus! {

/// The arrow type from one proposition to another, as an expression view.
pub open spec fn arrow_v(from: ExprV, to: ExprV) -> ExprV {
    ExprV::Pi { name: "_"@, domain: Box::new(from), codomain: Box::new(to) }
}

/// A registered line is one whose proof term checks against the arrow from
/// its source proposition to its target proposition.
pub open spec fn line_accepted(c: CtxV, term: ExprV, from_prop: ExprV, to_prop: ExprV) -> bool {
    &&& eval_s(
        arrow_v(from_prop, to_prop),
        c.env,
        Seq::empty(),
        crate::DEFAULT_FUEL as nat,
    ) matches Ok(ty)
    &&& check_s(c, term, ty, crate::DEFAULT_FUEL as nat) is Ok
}

/// Composition over a one-line path is well typed: the composite of a path
/// of one accepted line is that line's proof term, which checks against the
/// arrow from the path's start proposition to its end proposition.  Longer
/// accepted paths compose by application; their typing rests on the kernel's
/// application rule at each step.
pub proof fn lemma_single_step_composite(
    c: CtxV,
    lines: Seq<LineV>,
    id: u64,
    l: LineV,
    from_prop: ExprV,
    to_prop: ExprV,
)
    requires
        find_line_s(lines, id) == Some(l),
        line_accepted(c, l.proof_term, from_prop, to_prop),
    ensures
        composite_s(seq![id], lines) == Some(l.proof_term),
        eval_s(
            arrow_v(from_prop, to_prop),
            c.env,
            Seq::empty(),
            crate::DEFAULT_FUEL as nat,
        ) matches Ok(ty) && check_s(
            c,
            composite_s(seq![id], lines).unwrap(),
            ty,
            crate::DEFAULT_FUEL as nat,
        ) is Ok,
{
    assert(seq![id].len() == 1);
    assert(seq![id][0] == id);
}

/// The last point of the list whose proposition is the given expression.
pub open spec fn last_match(points: Seq<PointV>, t: ExprV) -> Option<int>
    decreases points.len(),
{
    if points.len() == 0 {
        None
    } else if points.last().proposition == t {
        Some(points.len() - 1)
    } else {
        last_match(points.drop_last(), t)
    }
}

/// What a term lifted from a construction is: the target proposition occurs,
/// its last occurrence is the target point, and the term is either that very
/// proposition (when the target is itself an axiom) or a type-checked proof
/// of the arrow from a reaching axiom's proposition to the target's.
pub open spec fn composite_of(
    c: CtxV,
    g: crate::construction::GraphV,
    target: Option<ExprV>,
    e: ExprV,
) -> bool {
    &&& target matches Some(t)
    &&& last_match(g.points, target->Some_0) matches Some(tp)
    &&& exists|a: int|
        #![auto]
        0 <= a < g.points.len() && g.incoming[a].len() == 0 && (a
            == last_match(g.points, target->Some_0)->Some_0 || crate::construction::reach(
            g.lines,
            a as u64,
            last_match(g.points, target->Some_0)->Some_0 as u64,
        )) && ((a == last_match(g.points, target->Some_0)->Some_0 && e == g.points[a].proposition)
            || line_accepted(
            c,
            e,
            g.points[a].proposition,
            g.points[last_match(g.points, target->Some_0)->Some_0 as int].proposition,
        ))
}

/// The maps between graph elements and proof terms.
#[derive(Debug)]
pub struct ProofBridge {
    /// The registration context: every registered point extends it.
    pub context: Context,
    /// The evaluation environment.
    pub environment: Env,
    /// Registered point propositions, by point identifier.
    pub point_terms: Vec<(u64, Expr)>,
    /// Registered line proof terms, by line identifier.
    pub line_terms: Vec<(u64, Expr)>,
}

/// The first registered term under an identifier.
pub open spec fn find_term(s: Seq<(u64, Expr)>, id: u64) -> Option<ExprV>
    decreases s.len(),
{
    if s.len() == 0 {
        None
    } else if s[0].0 == id {
        Some(s[0].1.deep_view())
    } else {
        find_term(s.skip(1), id)
    }
}

/// Views of the registered terms.
pub open spec fn terms_view(s: Seq<(u64, Expr)>) -> Seq<(u64, ExprV)>
    decreases s,
{
    if s.len() == 0 {
        Seq::empty()
    } else {
        terms_view(s.drop_last()).push((s.last().0, s.last().1.deep_view()))
    }
}

/// Skipping unmatched entries leaves the find unchanged.
proof fn lemma_find_term_skip(s: Seq<(u64, Expr)>, id: u64, i: int)
    requires
        0 <= i <= s.len(),
        forall|j: int| 0 <= j < i ==> (#[trigger] s[j]).0 != id,
    ensures
        find_term(s, id) == find_term(s.skip(i), id),
    decreases i,
{
    if i > 0 {
        assert(s.skip(1).skip(i - 1) =~= s.skip(i));
        lemma_find_term_skip(s.skip(1), id, i - 1);
    } else {
        assert(s.skip(0) =~= s);
    }
}

impl ProofBridge {
    /// An empty bridge.
    pub fn new() -> (r: Self)
        ensures
            r.context.deep_view().types.len() == 0,
            r.point_terms@.len() == 0,
            r.line_terms@.len() == 0,
    {
        ProofBridge {
            context: Context::new(),
            environment: Env::new(),
            point_terms: Vec::new(),
            line_terms: Vec::new(),
        }
    }

    /// The first registered proposition of a point.
    pub fn get_point_type(&self, point_id: PointId) -> (r: Option<&Expr>)
        ensures
            match r {
                Some(e) => find_term(self.point_terms@, point_id.0) == Some(e.deep_view()),
                None => find_term(self.point_terms@, point_id.0) is None,
            },
    {
        let mut i: usize = 0;
        while i < self.point_terms.len()
            invariant
                i <= self.point_terms@.len(),
                forall|j: int| 0 <= j < i ==> (#[trigger] self.point_terms@[j]).0 != point_id.0,
            decreases self.point_terms@.len() - i,
        {
            if self.point_terms[i].0 == point_id.0 {
                proof {
                    lemma_find_term_skip(self.point_terms@, point_id.0, i as int);
                    assert(self.point_terms@.skip(i as int).len() > 0);
                    assert(self.point_terms@.skip(i as int)[0] == self.point_terms@[i as int]);
                }
                return Some(&self.point_terms[i].1);
            }
            i = i + 1;
        }
        proof {
            lemma_find_term_skip(self.point_terms@, point_id.0, i as int);
            assert(self.point_terms@.skip(i as int).len() == 0);
        }
        None
    }

    /// The first registered proof term of a line.
    pub fn get_line_proof(&self, line_id: LineId) -> (r: Option<&Expr>)
        ensures
            match r {
                Some(e) => find_term(self.line_terms@, line_id.0) == Some(e.deep_view()),
                None => find_term(self.line_terms@, line_id.0) is None,
            },
    {
        let mut i: usize = 0;
        while i < self.line_terms.len()
            invariant
                i <= self.line_terms@.len(),
                forall|j: int| 0 <= j < i ==> (#[trigger] self.line_terms@[j]).0 != line_id.0,
            decreases self.line_terms@.len() - i,
        {
            if self.line_terms[i].0 == line_id.0 {
                proof {
                    lemma_find_term_skip(self.line_terms@, line_id.0, i as int);
                    assert(self.line_terms@.skip(i as int).len() > 0);
                    assert(self.line_terms@.skip(i as int)[0] == self.line_terms@[i as int]);
                }
                return Some(&self.line_terms[i].1);
            }
            i = i + 1;
        }
        proof {
            lemma_find_term_skip(self.line_terms@, line_id.0, i as int);
            assert(self.line_terms@.skip(i as int).len() == 0);
        }
        None
    }

    /// Registers a point: its proposition must infer a type, which then
    /// extends the context under the point's label.
    pub fn register_point(&mut self, point: &Point) -> (r: Result<(), GeometryError>)
        requires
            old(self).context.deep_view().types.len() + (crate::DEFAULT_FUEL as nat)
                < u32::MAX as nat,
            old(self).point_terms@.len() < usize::MAX,
        ensures
            r is Ok <==> infer_s(
                old(self).context.deep_view(),
                point.deep_view().proposition,
                crate::DEFAULT_FUEL as nat,
            ) is Ok,
            r is Ok ==> final(self).context.deep_view().types.len() == old(
                self,
            ).context.deep_view().types.len() + 1,
            r is Err ==> final(self).context.deep_view() == old(self).context.deep_view(),
    {
        let ty = match infer_fuel(&self.context, &point.proposition, crate::DEFAULT_FUEL) {
            Ok(v) => v,
            Err(e) => {
                let mut m = String::new();
                m.append("the point's proposition does not type check: ");
                m.append(e.message().as_str());
                return Err(GeometryError::ProofCorrespondence(m));
            },
        };
        self.point_terms.push((point.id.0, point.proposition.clone()));
        self.context = self.context.extend(Name(point.label.clone()), ty);
        Ok(())
    }

    /// Registers a line: both endpoints must have been registered before,
    /// and the line's proof term must check against the arrow from the
    /// source proposition to the target proposition; only then is the line's
    /// proof term recorded.
    pub fn register_line(&mut self, line: &Line, from: &Point, to: &Point) -> (r: Result<
        (),
        GeometryError,
    >)
        requires
            old(self).context.deep_view().types.len() + (crate::DEFAULT_FUEL as nat)
                <= u32::MAX as nat,
            old(self).line_terms@.len() < usize::MAX,
        ensures
            r is Ok <==> {
                &&& find_term(old(self).point_terms@, from.deep_view().id) is Some
                &&& find_term(old(self).point_terms@, to.deep_view().id) is Some
                &&& line_accepted(
                    old(self).context.deep_view(),
                    line.deep_view().proof_term,
                    from.deep_view().proposition,
                    to.deep_view().proposition,
                )
            },
            r is Ok ==> terms_view(final(self).line_terms@) == terms_view(
                old(self).line_terms@,
            ).push((line.deep_view().id, line.deep_view().proof_term)),
            r is Err ==> final(self).line_terms@ == old(self).line_terms@,
            final(self).point_terms@ == old(self).point_terms@,
            final(self).context.deep_view() == old(self).context.deep_view(),
    {
        proof {
            reveal_with_fuel(crate::syntax::expr_view, 2);
        }
        if self.get_point_type(from.id).is_none() {
            let mut m = String::new();
            m.append("the source point is not registered");
            return Err(GeometryError::ProofCorrespondence(m));
        }
        if self.get_point_type(to.id).is_none() {
            let mut m = String::new();
            m.append("the target point is not registered");
            return Err(GeometryError::ProofCorrespondence(m));
        }
        let expected_expr = Expr::arrow(from.proposition.clone(), to.proposition.clone());
        let empty_dims: DimEnv = Vec::new();
        let expected_ty = match eval_fuel(
            &expected_expr,
            self.context.env(),
            &empty_dims,
            crate::DEFAULT_FUEL,
        ) {
            Ok(v) => v,
            Err(e) => {
                let mut m = String::new();
                m.append("the line's arrow type does not evaluate: ");
                m.append(e.message().as_str());
                return Err(GeometryError::ProofCorrespondence(m));
            },
        };
        match check_fuel(&self.context, &line.proof_term, &expected_ty, crate::DEFAULT_FUEL) {
            Ok(_) => {},
            Err(e) => {
                let mut m = String::new();
                m.append("the line's proof term does not have the arrow type: ");
                m.append(e.message().as_str());
                return Err(GeometryError::ProofCorrespondence(m));
            },
        };
        let ghost pre_lines = self.line_terms@;
        self.line_terms.push((line.id.0, line.proof_term.clone()));
        proof {
            assert(self.line_terms@.drop_last() =~= pre_lines);
            assert(terms_view(self.line_terms@) == terms_view(pre_lines).push(
                (line.deep_view().id, line.deep_view().proof_term),
            ));
        }
        Ok(())
    }

    /// Lifts a proof path to its composite proof term, composing the lines'
    /// terms by application, threaded to the right, and then checking the
    /// composite against the arrow from the start proposition to the end
    /// proposition: an ill-typed composition is refused.  A trivial path
    /// stands for its start's proposition.
    pub fn proof_path_to_term(&self, path: &ProofPath, graph: &ConstructionGraph) -> (r: Result<
        Expr,
        GeometryError,
    >)
        requires
            graph_wf(graph.deep_view()),
            self.context.deep_view().types.len() + (crate::DEFAULT_FUEL as nat) <= u32::MAX as nat,
        ensures
            path.deep_view().lines.len() == 0 ==> (r is Ok <==> path.deep_view().start
                < graph.deep_view().points.len()),
            path.deep_view().lines.len() == 0 ==> (r matches Ok(e) ==> e.deep_view()
                == graph.deep_view().points[path.deep_view().start as int].proposition),
            path.deep_view().lines.len() > 0 ==> (r is Ok <==> {
                &&& path.deep_view().start < graph.deep_view().points.len()
                &&& path.deep_view().end < graph.deep_view().points.len()
                &&& composite_s(path.deep_view().lines, graph.deep_view().lines) matches Some(t)
                &&& line_accepted(
                    self.context.deep_view(),
                    t,
                    graph.deep_view().points[path.deep_view().start as int].proposition,
                    graph.deep_view().points[path.deep_view().end as int].proposition,
                )
            }),
            path.deep_view().lines.len() > 0 ==> (r matches Ok(e) ==> composite_s(
                path.deep_view().lines,
                graph.deep_view().lines,
            ) == Some(e.deep_view())),
    {
        proof {
            crate::construction::lemma_points_view(graph.points@);
            crate::line::lemma_lines_view(graph.lines@);
            reveal_with_fuel(crate::syntax::expr_view, 2);
        }
        if path.lines.len() == 0 {
            let start_ix = path.start.0;
            if !(start_ix < graph.points.len() as u64) {
                let mut m = String::new();
                m.append("the path's start point does not exist");
                return Err(GeometryError::ProofCorrespondence(m));
            }
            proof {
                assert(start_ix as usize as u64 == start_ix);
            }
            return Ok(graph.points[start_ix as usize].proposition.clone());
        }
        if !(path.start.0 < graph.points.len() as u64) || !(path.end.0 < graph.points.len() as u64) {
            let mut m = String::new();
            m.append("an endpoint of the path does not exist");
            return Err(GeometryError::ProofCorrespondence(m));
        }
        let mut work = ProofPath {
            lines: crate::value::clone_line_ids(&path.lines),
            start: path.start,
            end: path.end,
            composite_proof: None,
        };
        let composite = match work.compute_composite_proof(graph.lines.as_slice()) {
            Some(e) => e,
            None => {
                let mut m = String::new();
                m.append("a line of the path is not in the graph");
                return Err(GeometryError::ProofCorrespondence(m));
            },
        };
        proof {
            assert(path.start.0 as usize as u64 == path.start.0);
            assert(path.end.0 as usize as u64 == path.end.0);
        }
        let from_prop = graph.points[path.start.0 as usize].proposition.clone();
        let to_prop = graph.points[path.end.0 as usize].proposition.clone();
        let expected_expr = Expr::arrow(from_prop, to_prop);
        let empty_dims: DimEnv = Vec::new();
        let expected_ty = match eval_fuel(
            &expected_expr,
            self.context.env(),
            &empty_dims,
            crate::DEFAULT_FUEL,
        ) {
            Ok(v) => v,
            Err(e) => {
                let mut m = String::new();
                m.append("the path's arrow type does not evaluate: ");
                m.append(e.message().as_str());
                return Err(GeometryError::ProofCorrespondence(m));
            },
        };
        match check_fuel(&self.context, &composite, &expected_ty, crate::DEFAULT_FUEL) {
            Ok(_) => Ok(composite),
            Err(e) => {
                let mut m = String::new();
                m.append("the composite proof does not have the path's arrow type: ");
                m.append(e.message().as_str());
                Err(GeometryError::ProofCorrespondence(m))
            },
        }
    }

    /// Lifts a construction to a proof term of its target: the target point
    /// is the last point carrying the target proposition; every axiom is
    /// tried in order, and the first whose path to the target composes into
    /// a type-checking term wins.  A target that is itself an axiom always
    /// lifts (to its own proposition).
    pub fn construction_to_proof(&self, construction: &Construction) -> (r: Result<
        Expr,
        GeometryError,
    >)
        requires
            graph_wf(construction.deep_view().graph),
            self.context.deep_view().types.len() + (crate::DEFAULT_FUEL as nat) <= u32::MAX as nat,
        ensures
            construction.deep_view().target is None ==> r is Err,
            r is Ok ==> (construction.deep_view().target matches Some(t) && last_match(
                construction.deep_view().graph.points,
                t,
            ) is Some),
            (construction.deep_view().target matches Some(t) && last_match(
                construction.deep_view().graph.points,
                t,
            ) matches Some(tp) && construction.deep_view().graph.incoming[tp].len() == 0)
                ==> r is Ok,
            r matches Ok(e) ==> composite_of(
                self.context.deep_view(),
                construction.deep_view().graph,
                construction.deep_view().target,
                e.deep_view(),
            ),
    {
        let ghost gv = construction.deep_view().graph;
        proof {
            crate::construction::lemma_points_view(construction.graph.points@);
        }
        let target = match &construction.target {
            Some(t) => t,
            None => {
                let mut m = String::new();
                m.append("the construction has no target");
                return Err(GeometryError::ProofCorrespondence(m));
            },
        };
        // find the last point carrying the target proposition
        let mut target_ix: usize = 0;
        let mut found = false;
        let mut i: usize = 0;
        while i < construction.graph.points.len()
            invariant
                gv == construction.deep_view().graph,
                i <= construction.graph.points@.len(),
                gv.points.len() == construction.graph.points@.len(),
                forall|j: int|
                    0 <= j < construction.graph.points@.len() ==> #[trigger] gv.points[j]
                        == construction.graph.points@[j].deep_view(),
                found <==> last_match(gv.points.take(i as int), target.deep_view()) is Some,
                found ==> last_match(gv.points.take(i as int), target.deep_view()) == Some(
                    target_ix as int,
                ) && target_ix < i,
            decreases construction.graph.points@.len() - i,
        {
            proof {
                assert(gv.points.take(i + 1 as int).drop_last() =~= gv.points.take(i as int));
                assert(gv.points.take(i + 1 as int).last() == gv.points[i as int]);
            }
            if crate::syntax::expr_eq(&construction.graph.points[i].proposition, target) {
                target_ix = i;
                found = true;
            }
            i = i + 1;
        }
        proof {
            assert(gv.points.take(gv.points.len() as int) =~= gv.points);
        }
        if !found {
            let mut m = String::new();
            m.append("the target was not found in the construction");
            return Err(GeometryError::ProofCorrespondence(m));
        }
        let axioms = construction.graph.axioms();
        let mut a: usize = 0;
        while a < axioms.len()
            invariant
                gv == construction.deep_view().graph,
                construction.deep_view().target matches Some(t) && t == target.deep_view(),
                graph_wf(gv),
                self.context.deep_view().types.len() + (crate::DEFAULT_FUEL as nat)
                    <= u32::MAX as nat,
                target_ix < gv.points.len(),
                last_match(gv.points, target.deep_view()) == Some(target_ix as int),
                construction.graph.points@.len() == gv.points.len(),
                forall|k: int|
                    0 <= k < axioms@.len() ==> (#[trigger] axioms@[k]).0 < gv.points.len()
                        && gv.incoming[axioms@[k].0 as int].len() == 0,
                forall|i: int|
                    0 <= i < gv.points.len() && gv.incoming[i].len() == 0 ==> exists|k: int|
                        0 <= k < axioms@.len() && (#[trigger] axioms@[k]).0 == i,
                forall|k: int| 0 <= k < a ==> (#[trigger] axioms@[k]).0 != target_ix as u64,
            decreases axioms@.len() - a,
        {
            let axiom_id = axioms[a];
            proof {
                assert(target_ix as u64 as usize == target_ix);
            }
            match construction.graph.find_path(axiom_id, PointId(target_ix as u64)) {
                Some(path) => {
                    let res = self.proof_path_to_term(&path, &construction.graph);
                    match res {
                        Ok(e) => {
                            proof {
                                assert(composite_of(
                                    self.context.deep_view(),
                                    gv,
                                    construction.deep_view().target,
                                    e.deep_view(),
                                )) by {
                                    let av = axiom_id.0 as int;
                                    assert(0 <= av < gv.points.len());
                                    assert(gv.incoming[av].len() == 0);
                                    if path.deep_view().lines.len() == 0 {
                                        assert(axiom_id.0 == target_ix as u64);
                                    } else {
                                    }
                                }
                            }
                            return Ok(e);
                        },
                        Err(_) => {
                            proof {
                                // the target itself always lifts over the
                                // empty path, so this axiom is another point
                                assert(axiom_id.0 != target_ix as u64);
                            }
                        },
                    }
                },
                None => {
                    proof {
                        assert(axiom_id.0 != target_ix as u64);
                    }
                },
            }
            a = a + 1;
        }
        proof {
            if gv.incoming[target_ix as int].len() == 0 {
                let k = choose|k: int|
                    0 <= k < axioms@.len() && (#[trigger] axioms@[k]).0 == target_ix as u64;
                assert(false);
            }
        }
        let mut m = String::new();
        m.append("no proof path reaches the target");
        Err(GeometryError::ProofCorrespondence(m))
    }

    /// Rebuilds a construction skeleton from a proof term: variables become
    /// points, lambdas and applications add lines, and anything else becomes
    /// an opaque point.
    pub fn proof_to_construction(&self, proof_term: &Expr, name: String) -> (r: Result<
        Construction,
        GeometryError,
    >)
        ensures
            (sk_nodes(proof_term.deep_view()) <= u64::MAX && sk_lines(proof_term.deep_view())
                <= u64::MAX) ==> r is Ok,
            r matches Ok(c) ==> graph_wf(c.deep_view().graph) && c.deep_view().name == name@
                && c.deep_view().graph.points.len() > 0 && exists|i: int|
                #![auto]
                0 <= i < c.deep_view().graph.points.len()
                    && c.deep_view().graph.points[i].proposition == proof_term.deep_view()
                    && skeleton_built(proof_term.deep_view(), c.deep_view().graph, i as u64),
    {
        let mut construction = Construction::new(name);
        match analyze_and_build(proof_term, &mut construction, 0) {
            Ok(_) => Ok(construction),
            Err(e) => Err(e),
        }
    }

    /// Verifies the correspondence of a construction: every point must infer
    /// a type and every line's term must check against its arrow type, in
    /// this bridge's context.
    #[verifier::rlimit(100)]
    #[verifier::spinoff_prover]
    pub fn verify_correspondence(&self, construction: &Construction) -> (r: Result<
        (),
        GeometryError,
    >)
        requires
            graph_wf(construction.deep_view().graph),
            self.context.deep_view().types.len() + (crate::DEFAULT_FUEL as nat) <= u32::MAX as nat,
        ensures
            r is Ok ==> forall|i: int|
                0 <= i < construction.deep_view().graph.points.len() ==> infer_s(
                    self.context.deep_view(),
                    (#[trigger] construction.deep_view().graph.points[i]).proposition,
                    crate::DEFAULT_FUEL as nat,
                ) is Ok,
            r is Ok ==> forall|j: int|
                0 <= j < construction.deep_view().graph.lines.len() ==> line_accepted(
                    self.context.deep_view(),
                    (#[trigger] construction.deep_view().graph.lines[j]).proof_term,
                    construction.deep_view().graph.points[construction.deep_view().graph.lines[j].from as int].proposition,
                    construction.deep_view().graph.points[construction.deep_view().graph.lines[j].to as int].proposition,
                ),
    {
        let ghost cv = construction.deep_view();
        proof {
            crate::construction::lemma_points_view(construction.graph.points@);
            crate::line::lemma_lines_view(construction.graph.lines@);
        }
        let mut i: usize = 0;
        while i < construction.graph.points.len()
            invariant
                cv == construction.deep_view(),
                graph_wf(cv.graph),
                self.context.deep_view().types.len() + (crate::DEFAULT_FUEL as nat)
                    <= u32::MAX as nat,
                cv.graph.points.len() == construction.graph.points@.len(),
                forall|j: int|
                    0 <= j < construction.graph.points@.len() ==> #[trigger] cv.graph.points[j]
                        == construction.graph.points@[j].deep_view(),
                i <= construction.graph.points@.len(),
                forall|j: int|
                    0 <= j < i ==> infer_s(
                        self.context.deep_view(),
                        (#[trigger] cv.graph.points[j]).proposition,
                        crate::DEFAULT_FUEL as nat,
                    ) is Ok,
            decreases construction.graph.points@.len() - i,
        {
            match infer_fuel(
                &self.context,
                &construction.graph.points[i].proposition,
                crate::DEFAULT_FUEL,
            ) {
                Ok(_) => {},
                Err(e) => {
                    let mut m = String::new();
                    m.append("a point's proposition does not type check: ");
                    m.append(e.message().as_str());
                    return Err(GeometryError::ProofCorrespondence(m));
                },
            };
            i = i + 1;
        }
        let mut j: usize = 0;
        let n_pts = construction.graph.points.len();
        while j < construction.graph.lines.len()
            invariant
                cv == construction.deep_view(),
                graph_wf(cv.graph),
                n_pts == cv.graph.points.len(),
                construction.graph.points@.len() == n_pts,
                forall|k: int|
                    0 <= k < construction.graph.points@.len() ==> #[trigger] cv.graph.points[k]
                        == construction.graph.points@[k].deep_view(),
                self.context.deep_view().types.len() + (crate::DEFAULT_FUEL as nat)
                    <= u32::MAX as nat,
                cv.graph.lines.len() == construction.graph.lines@.len(),
                forall|k: int|
                    0 <= k < construction.graph.lines@.len() ==> #[trigger] cv.graph.lines[k]
                        == construction.graph.lines@[k].deep_view(),
                j <= construction.graph.lines@.len(),
                forall|k: int|
                    0 <= k < j ==> line_accepted(
                        self.context.deep_view(),
                        (#[trigger] cv.graph.lines[k]).proof_term,
                        cv.graph.points[cv.graph.lines[k].from as int].proposition,
                        cv.graph.points[cv.graph.lines[k].to as int].proposition,
                    ),
            decreases construction.graph.lines@.len() - j,
        {
            proof {
                reveal_with_fuel(crate::syntax::expr_view, 2);
                assert(cv.graph.lines[j as int].from < cv.graph.points.len());
                assert(cv.graph.lines[j as int].to < cv.graph.points.len());
            }
            let line = &construction.graph.lines[j];
            let n_pts2 = construction.graph.points.len();
            proof {
                assert(cv.graph.points.len() == n_pts2);
                assert(line.from.0 as usize as u64 == line.from.0);
                assert(line.to.0 as usize as u64 == line.to.0);
            }
            let from = &construction.graph.points[line.from.0 as usize];
            let to = &construction.graph.points[line.to.0 as usize];
            let expected_expr = Expr::arrow(from.proposition.clone(), to.proposition.clone());
            let empty_dims: DimEnv = Vec::new();
            let expected_ty = match eval_fuel(
                &expected_expr,
                self.context.env(),
                &empty_dims,
                crate::DEFAULT_FUEL,
            ) {
                Ok(v) => v,
                Err(e) => {
                    let mut m = String::new();
                    m.append("a line's arrow type does not evaluate: ");
                    m.append(e.message().as_str());
                    return Err(GeometryError::ProofCorrespondence(m));
                },
            };
            match check_fuel(&self.context, &line.proof_term, &expected_ty, crate::DEFAULT_FUEL) {
                Ok(_) => {},
                Err(e) => {
                    let mut m = String::new();
                    m.append("a line's proof term does not have its arrow type: ");
                    m.append(e.message().as_str());
                    return Err(GeometryError::ProofCorrespondence(m));
                },
            };
            j = j + 1;
        }
        Ok(())
    }

    /// Evaluates a construction's composite proof term.
    pub fn evaluate_construction(&self, construction: &Construction) -> (r: Result<
        Value,
        GeometryError,
    >)
        requires
            graph_wf(construction.deep_view().graph),
            self.context.deep_view().types.len() + (crate::DEFAULT_FUEL as nat) <= u32::MAX as nat,
        ensures
            construction.deep_view().target is None ==> r is Err,
            r matches Ok(v) ==> exists|e: ExprV|
                #![auto]
                composite_of(
                    self.context.deep_view(),
                    construction.deep_view().graph,
                    construction.deep_view().target,
                    e,
                ) && eval_s(
                    e,
                    crate::value::env_view(self.environment@),
                    Seq::empty(),
                    crate::DEFAULT_FUEL as nat,
                ) == Ok::<ValueV, crate::errors::ErrKind>(v.deep_view()),
    {
        let proof_term = match self.construction_to_proof(construction) {
            Ok(e) => e,
            Err(e) => {
                return Err(e);
            },
        };
        match crate::eval::eval(&proof_term, &self.environment) {
            Ok(v) => Ok(v),
            Err(e) => {
                let mut m = String::new();
                m.append("the composite proof does not evaluate: ");
                m.append(e.message().as_str());
                Err(GeometryError::ProofCorrespondence(m))
            },
        }
    }
}

/// How many points the skeleton of a term needs.
pub open spec fn sk_nodes(e: ExprV) -> nat
    decreases e,
{
    match e {
        ExprV::Lambda { body, .. } => 1 + sk_nodes(*body),
        ExprV::App { func, arg } => 1 + sk_nodes(*func) + sk_nodes(*arg),
        ExprV::Pi { domain, codomain, .. } => 1 + sk_nodes(*domain) + sk_nodes(*codomain),
        _ => 1,
    }
}

/// How many lines the skeleton of a term needs.
pub open spec fn sk_lines(e: ExprV) -> nat
    decreases e,
{
    match e {
        ExprV::Lambda { body, .. } => 1 + sk_lines(*body),
        ExprV::App { func, arg } => 2 + sk_lines(*func) + sk_lines(*arg),
        ExprV::Pi { domain, codomain, .. } => sk_lines(*domain) + sk_lines(*codomain),
        _ => 0,
    }
}

/// The skeleton a built root satisfies: a lambda's root receives a line from
/// a point carrying the body, an application's root receives lines from
/// points carrying the function and the argument, and a function type's
/// parts occur as points.
pub open spec fn skeleton_built(e: ExprV, g: crate::construction::GraphV, root: u64) -> bool {
    match e {
        ExprV::Lambda { body, .. } => exists|j: int|
            #![auto]
            0 <= j < g.lines.len() && g.lines[j].to == root && g.lines[j].from < g.points.len()
                && g.points[g.lines[j].from as int].proposition == *body,
        ExprV::App { func, arg } => (exists|j: int|
            #![auto]
            0 <= j < g.lines.len() && g.lines[j].to == root && g.lines[j].from < g.points.len()
                && g.points[g.lines[j].from as int].proposition == *func) && (exists|j: int|
            #![auto]
            0 <= j < g.lines.len() && g.lines[j].to == root && g.lines[j].from < g.points.len()
                && g.points[g.lines[j].from as int].proposition == *arg),
        ExprV::Pi { domain, codomain, .. } => (exists|k: int|
            #![auto]
            0 <= k < g.points.len() && g.points[k].proposition == *domain) && (exists|k: int|
            #![auto]
            0 <= k < g.points.len() && g.points[k].proposition == *codomain),
        _ => true,
    }
}

/// A point that no line departs from reaches nothing.
proof fn lemma_no_departing_line(lines: Seq<LineV>, v: u64)
    requires
        forall|j: int| 0 <= j < lines.len() ==> (#[trigger] lines[j]).from != v,
    ensures
        forall|w: u64| !crate::construction::reach(lines, v, w),
{
    assert forall|w: u64| !crate::construction::reach(lines, v, w) by {
        if crate::construction::reach(lines, v, w) {
            let ids = choose|ids: Seq<int>|
                crate::construction::valid_path(lines, ids) && crate::construction::path_src(
                    lines,
                    ids,
                ) == v && crate::construction::path_dst(lines, ids) == w;
            assert(lines[ids[0]].from == v);
            assert(false);
        }
    }
}

/// Rebuilds graph structure from a term, depth first.  The graph grows by
/// at most the term's skeleton size, existing points and lines stand
/// unchanged, and while the identifier budget has that much headroom the
/// build cannot fail.
#[verifier::rlimit(100)]
#[verifier::spinoff_prover]
fn analyze_and_build(expr: &Expr, construction: &mut Construction, depth: u64) -> (r: Result<
    PointId,
    GeometryError,
>)
    requires
        graph_wf(old(construction).deep_view().graph),
    ensures
        graph_wf(final(construction).deep_view().graph),
        final(construction).deep_view().name == old(construction).deep_view().name,
        final(construction).deep_view().target == old(construction).deep_view().target,
        final(construction).deep_view().graph.points.len() >= old(
            construction,
        ).deep_view().graph.points.len(),
        final(construction).deep_view().graph.points.len() <= old(
            construction,
        ).deep_view().graph.points.len() + sk_nodes(expr.deep_view()),
        final(construction).deep_view().graph.lines.len() >= old(
            construction,
        ).deep_view().graph.lines.len(),
        final(construction).deep_view().graph.lines.len() <= old(
            construction,
        ).deep_view().graph.lines.len() + sk_lines(expr.deep_view()),
        forall|k: int|
            0 <= k < old(construction).deep_view().graph.points.len()
                ==> #[trigger] final(construction).deep_view().graph.points[k] == old(
                construction,
            ).deep_view().graph.points[k],
        forall|k: int|
            0 <= k < old(construction).deep_view().graph.lines.len()
                ==> #[trigger] final(construction).deep_view().graph.lines[k] == old(
                construction,
            ).deep_view().graph.lines[k],
        (old(construction).deep_view().graph.points.len() + sk_nodes(expr.deep_view())
            <= u64::MAX && old(construction).deep_view().graph.lines.len() + sk_lines(
            expr.deep_view(),
        ) <= u64::MAX) ==> r is Ok,
        r matches Ok(id) ==> id.0 < final(construction).deep_view().graph.points.len()
            && final(construction).deep_view().graph.points[id.0 as int].proposition
            == expr.deep_view() && skeleton_built(
            expr.deep_view(),
            final(construction).deep_view().graph,
            id.0,
        ),
    decreases expr,
{
    proof {
        crate::construction::lemma_points_view(construction.graph.points@);
    }
    match expr {
        Expr::Var(name, _) => {
            if construction.graph.points.len() as u64 == u64::MAX {
                let mut m = String::new();
                m.append("the construction is full");
                return Err(GeometryError::CannotConstruct(m));
            }
            let id = construction.add_point(
                Point::new(PointId(0), expr.clone(), name.0.clone()),
            );
            Ok(id)
        },
        Expr::Lambda { name, body } => {
            let ghost pre = construction.deep_view();
            let body_point = match analyze_and_build(body, construction, depth) {
                Ok(p) => p,
                Err(e) => {
                    return Err(e);
                },
            };
            proof {
                crate::construction::lemma_points_view(construction.graph.points@);
            }
            if construction.graph.points.len() as u64 == u64::MAX {
                let mut m = String::new();
                m.append("the construction is full");
                return Err(GeometryError::CannotConstruct(m));
            }
            let ghost before_pt = construction.deep_view();
            let mut label = String::new();
            label.append("fn ");
            label.append(name.0.as_str());
            let lambda_id = construction.add_point(Point::new(PointId(0), expr.clone(), label));
            proof {
                crate::line::lemma_lines_view(construction.graph.lines@);
            }
            if construction.graph.lines.len() as u64 == u64::MAX {
                let mut m = String::new();
                m.append("the construction is full");
                return Err(GeometryError::CannotConstruct(m));
            }
            let mut line_label = String::new();
            line_label.append("fn ");
            line_label.append(name.0.as_str());
            let line = Line::new(LineId(0), body_point, lambda_id, expr.clone(), line_label);
            proof {
                assert(forall|j: int|
                    0 <= j < construction.deep_view().graph.lines.len()
                        ==> (#[trigger] construction.deep_view().graph.lines[j]).from
                        < before_pt.graph.points.len());
                lemma_no_departing_line(construction.deep_view().graph.lines, lambda_id.0);
            }
            let lr = construction.add_line(line);
            proof {
                assert(lr is Ok);
                reveal_with_fuel(crate::syntax::expr_view, 2);
                let g = construction.deep_view().graph;
                let j = g.lines.len() - 1;
                assert(g.lines[j].to == lambda_id.0);
                assert(g.lines[j].from == body_point.0);
                assert(g.points[body_point.0 as int].proposition == body.deep_view());
                assert(g.points[lambda_id.0 as int].proposition == expr.deep_view());
            }
            Ok(lambda_id)
        },
        Expr::App { func, arg } => {
            let func_point = match analyze_and_build(func, construction, depth) {
                Ok(p) => p,
                Err(e) => {
                    return Err(e);
                },
            };
            let ghost mid = construction.deep_view();
            let arg_point = match analyze_and_build(arg, construction, depth) {
                Ok(p) => p,
                Err(e) => {
                    return Err(e);
                },
            };
            proof {
                crate::construction::lemma_points_view(construction.graph.points@);
                assert(construction.deep_view().graph.points[func_point.0 as int]
                    == mid.graph.points[func_point.0 as int]);
            }
            if construction.graph.points.len() as u64 == u64::MAX {
                let mut m = String::new();
                m.append("the construction is full");
                return Err(GeometryError::CannotConstruct(m));
            }
            let ghost before_pt = construction.deep_view();
            let mut label = String::new();
            label.append("app");
            let app_id = construction.add_point(Point::new(PointId(0), expr.clone(), label));
            proof {
                crate::line::lemma_lines_view(construction.graph.lines@);
            }
            if construction.graph.lines.len() as u64 >= u64::MAX - 1 {
                let mut m = String::new();
                m.append("the construction is full");
                return Err(GeometryError::CannotConstruct(m));
            }
            let mut l1_label = String::new();
            l1_label.append("func");
            let line1 = Line::new(LineId(0), func_point, app_id, (**func).clone(), l1_label);
            proof {
                assert(forall|j: int|
                    0 <= j < construction.deep_view().graph.lines.len()
                        ==> (#[trigger] construction.deep_view().graph.lines[j]).from
                        < before_pt.graph.points.len());
                lemma_no_departing_line(construction.deep_view().graph.lines, app_id.0);
            }
            let lr1 = construction.add_line(line1);
            proof {
                assert(lr1 is Ok);
            }
            proof {
                crate::line::lemma_lines_view(construction.graph.lines@);
            }
            if construction.graph.lines.len() as u64 == u64::MAX {
                let mut m = String::new();
                m.append("the construction is full");
                return Err(GeometryError::CannotConstruct(m));
            }
            let mut l2_label = String::new();
            l2_label.append("arg");
            let line2 = Line::new(LineId(0), arg_point, app_id, (**arg).clone(), l2_label);
            proof {
                assert(forall|j: int|
                    0 <= j < construction.deep_view().graph.lines.len()
                        ==> (#[trigger] construction.deep_view().graph.lines[j]).from
                        < before_pt.graph.points.len());
                lemma_no_departing_line(construction.deep_view().graph.lines, app_id.0);
            }
            let lr2 = construction.add_line(line2);
            proof {
                assert(lr2 is Ok);
                reveal_with_fuel(crate::syntax::expr_view, 2);
                let g = construction.deep_view().graph;
                assert(g.lines[g.lines.len() - 2].to == app_id.0);
                assert(g.lines[g.lines.len() - 2].from == func_point.0);
                assert(g.lines[g.lines.len() - 1].to == app_id.0);
                assert(g.lines[g.lines.len() - 1].from == arg_point.0);
                assert(g.points[func_point.0 as int].proposition == (**func).deep_view());
                assert(g.points[arg_point.0 as int].proposition == (**arg).deep_view());
                assert(g.points[app_id.0 as int].proposition == expr.deep_view());
            }
            Ok(app_id)
        },
        Expr::Pi { name, domain, codomain } => {
            let domain_point = match analyze_and_build(domain, construction, depth) {
                Ok(p) => p,
                Err(e) => {
                    return Err(e);
                },
            };
            let ghost mid = construction.deep_view();
            let codomain_point = match analyze_and_build(codomain, construction, depth) {
                Ok(p) => p,
                Err(e) => {
                    return Err(e);
                },
            };
            proof {
                crate::construction::lemma_points_view(construction.graph.points@);
                assert(construction.deep_view().graph.points[domain_point.0 as int]
                    == mid.graph.points[domain_point.0 as int]);
            }
            if construction.graph.points.len() as u64 == u64::MAX {
                let mut m = String::new();
                m.append("the construction is full");
                return Err(GeometryError::CannotConstruct(m));
            }
            let mut label = String::new();
            label.append("all ");
            label.append(name.0.as_str());
            let pi_id = construction.add_point(Point::new(PointId(0), expr.clone(), label));
            proof {
                reveal_with_fuel(crate::syntax::expr_view, 2);
                let g = construction.deep_view().graph;
                assert(g.points[domain_point.0 as int].proposition == (**domain).deep_view());
                assert(g.points[codomain_point.0 as int].proposition == (**codomain).deep_view());
                assert(g.points[pi_id.0 as int].proposition == expr.deep_view());
            }
            Ok(pi_id)
        },
        _ => {
            if construction.graph.points.len() as u64 == u64::MAX {
                let mut m = String::new();
                m.append("the construction is full");
                return Err(GeometryError::CannotConstruct(m));
            }
            let mut label = String::new();
            label.append("term");
            let id = construction.add_point(Point::new(PointId(0), expr.clone(), label));
            Ok(id)
        },
    }
}

} // verus!
