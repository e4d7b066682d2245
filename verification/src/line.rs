//! Lines of the proof graph: directed edges carrying a proof term of the
//! arrow type between their endpoints' propositions, and proof paths made of
//! consecutive lines.

use vstd::prelude::*;

use crate::point::PointId;
use crate::syntax::{Expr, ExprV};

verus! {

/// Stable identifier of a line.
#[derive(Debug, Clone, Copy, PartialEq, Eq, Hash, Structural)]
pub struct LineId(pub u64);

/// Arrow decorations for rendering hosts.
#[derive(Debug, Clone, Copy, PartialEq, Eq)]
pub enum ArrowStyle {
    /// No arrow head.
    NoArrow,
    /// Arrow head at the end.
    Forward,
    /// Arrow head at the start.
    Backward,
    /// Arrow heads at both ends.
    Bidirectional,
}

/// A directed edge of the proof graph.
#[derive(Debug)]
pub struct Line {
    /// Unique identifier, assigned on insertion.
    pub id: LineId,
    /// Starting point (premise).
    pub from: PointId,
    /// Ending point (conclusion).
    pub to: PointId,
    /// Proof term of type `from.prop -> to.prop`.
    pub proof_term: Expr,
    /// Human-readable label.
    pub label: String,
}

/// Mathematical view of a line.
#[verifier::ext_equal]
pub struct LineV {
    pub id: u64,
    pub from: u64,
    pub to: u64,
    pub proof_term: ExprV,
    pub label: Seq<char>,
}

impl DeepView for Line {
    type V = LineV;

    open spec fn deep_view(&self) -> LineV {
        LineV {
            id: self.id.0,
            from: self.from.0,
            to: self.to.0,
            proof_term: self.proof_term.deep_view(),
            label: self.label@,
        }
    }
}

impl Clone for Line {
    /// Copies the line, keeping its view.
    fn clone(&self) -> (res: Self)
        ensures
            res.deep_view() == self.deep_view(),
    {
        Line {
            id: LineId(self.id.0),
            from: PointId(self.from.0),
            to: PointId(self.to.0),
            proof_term: self.proof_term.clone(),
            label: self.label.clone(),
        }
    }
}

impl Line {
    /// Makes a line; the identifier is replaced when the line enters a graph.
    pub fn new(id: LineId, from: PointId, to: PointId, proof_term: Expr, label: String) -> (r: Self)
        ensures
            r.deep_view() == (LineV {
                id: id.0,
                from: from.0,
                to: to.0,
                proof_term: proof_term.deep_view(),
                label: label@,
            }),
    {
        Line { id, from, to, proof_term, label }
    }

    /// The proof term this line carries.
    pub fn to_proof_term(&self) -> (r: Expr)
        ensures
            r.deep_view() == self.deep_view().proof_term,
    {
        self.proof_term.clone()
    }
}

/// Proof complexity of a term, used by hosts for sonification.
pub open spec fn proof_complexity_s(e: ExprV) -> nat
    decreases e,
{
    match e {
        ExprV::Var(_, _) => 1,
        ExprV::Lambda { body, .. } => 1 + proof_complexity_s(*body),
        ExprV::App { func, arg } => 1 + proof_complexity_s(*func) + proof_complexity_s(*arg),
        ExprV::Pi { domain, codomain, .. } => 1 + proof_complexity_s(*domain) + proof_complexity_s(
            *codomain,
        ),
        ExprV::Path { ty, left, right } => 2 + proof_complexity_s(*ty) + proof_complexity_s(*left)
            + proof_complexity_s(*right),
        ExprV::PathLam { body, .. } => 2 + proof_complexity_s(*body),
        ExprV::PathApp { path, .. } => 2 + proof_complexity_s(*path),
        _ => 1,
    }
}

/// Estimates the complexity of a proof term.
pub fn estimate_proof_complexity(expr: &Expr) -> (r: u32)
    requires
        proof_complexity_s(expr.deep_view()) <= u32::MAX as nat,
    ensures
        r as nat == proof_complexity_s(expr.deep_view()),
    decreases expr,
{
    proof {
        reveal_with_fuel(crate::syntax::expr_view, 2);
    }
    match expr {
        Expr::Var(_, _) => 1,
        Expr::Lambda { body, .. } => 1 + estimate_proof_complexity(body),
        Expr::App { func, arg } => 1 + estimate_proof_complexity(func) + estimate_proof_complexity(
            arg,
        ),
        Expr::Pi { domain, codomain, .. } => 1 + estimate_proof_complexity(domain)
            + estimate_proof_complexity(codomain),
        Expr::Path { ty, left, right } => 2 + estimate_proof_complexity(ty)
            + estimate_proof_complexity(left) + estimate_proof_complexity(right),
        Expr::PathLam { body, .. } => 2 + estimate_proof_complexity(body),
        Expr::PathApp { path, .. } => 2 + estimate_proof_complexity(path),
        _ => 1,
    }
}

/// A path through the graph: the lines in order, with the intended start and
/// end points and, once computed, the composite proof.
#[derive(Debug)]
pub struct ProofPath {
    /// The line identifiers in order.
    pub lines: Vec<LineId>,
    /// Start point.
    pub start: PointId,
    /// End point.
    pub end: PointId,
    /// Composite proof term, once computed.
    pub composite_proof: Option<Expr>,
}

/// Mathematical view of a proof path.
#[verifier::ext_equal]
pub struct ProofPathV {
    pub lines: Seq<u64>,
    pub start: u64,
    pub end: u64,
    pub composite_proof: Option<ExprV>,
}

/// View of a list of line identifiers.
pub open spec fn line_ids_view(s: Seq<LineId>) -> Seq<u64> {
    s.map_values(|l: LineId| l.0)
}

impl DeepView for ProofPath {
    type V = ProofPathV;

    open spec fn deep_view(&self) -> ProofPathV {
        ProofPathV {
            lines: line_ids_view(self.lines@),
            start: self.start.0,
            end: self.end.0,
            composite_proof: match self.composite_proof {
                Some(e) => Some(e.deep_view()),
                None => None,
            },
        }
    }
}

/// The first line of a list with the given identifier.
pub open spec fn find_line_s(lines: Seq<LineV>, id: u64) -> Option<LineV>
    decreases lines.len(),
{
    if lines.len() == 0 {
        None
    } else if lines[0].id == id {
        Some(lines[0])
    } else {
        find_line_s(lines.skip(1), id)
    }
}

/// Validity of a proof path against a list of lines: consecutive lines link
/// up and the path leads from its start to its end.
pub open spec fn path_valid_s(ids: Seq<u64>, start: u64, end: u64, lines: Seq<LineV>) -> bool
    decreases ids.len(),
{
    if ids.len() == 0 {
        start == end
    } else {
        match find_line_s(lines, ids[0]) {
            Some(l) => l.from == start && path_valid_s(ids.skip(1), l.to, end, lines),
            None => false,
        }
    }
}

/// The composite proof of a path: the proof terms of its lines, applied in
/// order, threaded to the right.
pub open spec fn composite_s(ids: Seq<u64>, lines: Seq<LineV>) -> Option<ExprV>
    decreases ids.len(),
{
    if ids.len() == 0 {
        None
    } else if ids.len() == 1 {
        match find_line_s(lines, ids[0]) {
            Some(l) => Some(l.proof_term),
            None => None,
        }
    } else {
        match composite_s(ids.drop_last(), lines) {
            Some(prev) => match find_line_s(lines, ids.last()) {
                Some(l) => Some(
                    ExprV::App { func: Box::new(l.proof_term), arg: Box::new(prev) },
                ),
                None => None,
            },
            None => None,
        }
    }
}

/// View of a list of lines.
pub open spec fn lines_view(s: Seq<Line>) -> Seq<LineV>
    decreases s,
{
    if s.len() == 0 {
        Seq::empty()
    } else {
        lines_view(s.drop_last()).push(s.last().deep_view())
    }
}

/// Index characterisation of `lines_view`.
pub proof fn lemma_lines_view(s: Seq<Line>)
    ensures
        lines_view(s).len() == s.len(),
        forall|i: int| 0 <= i < s.len() ==> #[trigger] lines_view(s)[i] == s[i].deep_view(),
    decreases s,
{
    if s.len() > 0 {
        lemma_lines_view(s.drop_last());
    }
}

/// If no line among the first `i` has the identifier, the find continues in
/// the rest of the list.
pub proof fn lemma_find_line_skip(lines: Seq<LineV>, id: u64, i: int)
    requires
        0 <= i <= lines.len(),
        forall|j: int| 0 <= j < i ==> (#[trigger] lines[j]).id != id,
    ensures
        find_line_s(lines, id) == find_line_s(lines.skip(i), id),
    decreases i,
{
    if i > 0 {
        lemma_find_line_skip(lines.skip(1), id, i - 1);
        assert(lines.skip(1).skip(i - 1) =~= lines.skip(i));
    } else {
        assert(lines.skip(0) =~= lines);
    }
}

/// Finds the first line with the given identifier.
pub fn find_line<'a>(lines: &'a [Line], id: LineId) -> (r: Option<&'a Line>)
    ensures
        match r {
            Some(l) => find_line_s(lines_view(lines@), id.0) == Some(l.deep_view()),
            None => find_line_s(lines_view(lines@), id.0) is None,
        },
{
    let ghost lv = lines_view(lines@);
    proof {
        lemma_lines_view(lines@);
    }
    let mut i: usize = 0;
    while i < lines.len()
        invariant
            i <= lines@.len(),
            lv == lines_view(lines@),
            lv.len() == lines@.len(),
            forall|j: int| 0 <= j < lines@.len() ==> #[trigger] lv[j] == lines@[j].deep_view(),
            forall|j: int| 0 <= j < i ==> (#[trigger] lv[j]).id != id.0,
        decreases lines@.len() - i,
    {
        if lines[i].id.0 == id.0 {
            proof {
                lemma_find_line_skip(lv, id.0, i as int);
                assert(lv.skip(i as int).len() == lv.len() - i);
                assert(lv.skip(i as int)[0] == lv[i as int]);
            }
            return Some(&lines[i]);
        }
        i = i + 1;
    }
    proof {
        lemma_find_line_skip(lv, id.0, i as int);
        assert(lv.skip(i as int).len() == 0);
    }
    None
}

impl ProofPath {
    /// An empty path between two points.
    pub fn new(start: PointId, end: PointId) -> (r: Self)
        ensures
            r.deep_view() == (ProofPathV {
                lines: Seq::<u64>::empty(),
                start: start.0,
                end: end.0,
                composite_proof: None,
            }),
    {
        let r = ProofPath { lines: Vec::new(), start, end, composite_proof: None };
        proof {
            assert(line_ids_view(r.lines@) =~= Seq::<u64>::empty());
        }
        r
    }

    /// Appends a line to the path.
    pub fn add_line(&mut self, line_id: LineId)
        ensures
            final(self).deep_view() == (ProofPathV {
                lines: old(self).deep_view().lines.push(line_id.0),
                ..old(self).deep_view()
            }),
    {
        self.lines.push(line_id);
        proof {
            assert(line_ids_view(self.lines@) =~= line_ids_view(old(self).lines@).push(line_id.0));
        }
    }

    /// Whether the path is valid against the given lines: consecutive lines
    /// link up, starting at the path's start and ending at its end.
    pub fn is_valid(&self, lines: &[Line]) -> (r: bool)
        ensures
            r == path_valid_s(
                self.deep_view().lines,
                self.deep_view().start,
                self.deep_view().end,
                lines_view(lines@),
            ),
    {
        let ghost idsv = line_ids_view(self.lines@);
        let mut current: PointId = self.start;
        let mut i: usize = 0;
        proof {
            assert(idsv.skip(0) =~= idsv);
        }
        while i < self.lines.len()
            invariant
                i <= self.lines@.len(),
                idsv == line_ids_view(self.lines@),
                idsv.len() == self.lines@.len(),
                forall|j: int| 0 <= j < idsv.len() ==> #[trigger] idsv[j] == self.lines@[j].0,
                path_valid_s(idsv, self.deep_view().start, self.deep_view().end, lines_view(lines@))
                    == path_valid_s(
                    idsv.skip(i as int),
                    current.0,
                    self.deep_view().end,
                    lines_view(lines@),
                ),
            decreases self.lines@.len() - i,
        {
            let line_id = self.lines[i];
            match find_line(lines, line_id) {
                Some(l) => {
                    if l.from.0 != current.0 {
                        proof {
                            assert(idsv.skip(i as int)[0] == idsv[i as int]);
                            assert(idsv.skip(i as int).len() > 0);
                        }
                        return false;
                    }
                    proof {
                        assert(idsv.skip(i as int)[0] == idsv[i as int]);
                        assert(idsv.skip(i as int).len() > 0);
                        assert(idsv.skip(i as int).skip(1) =~= idsv.skip(i + 1));
                    }
                    current = PointId(l.to.0);
                },
                None => {
                    proof {
                        assert(idsv.skip(i as int)[0] == idsv[i as int]);
                        assert(idsv.skip(i as int).len() > 0);
                    }
                    return false;
                },
            }
            i = i + 1;
        }
        proof {
            assert(idsv.skip(i as int).len() == 0);
        }
        current.0 == self.end.0
    }

    /// Computes and stores the composite proof of the path: each line's term
    /// applied to the proof built so far.
    pub fn compute_composite_proof(&mut self, lines: &[Line]) -> (r: Option<Expr>)
        ensures
            final(self).deep_view().lines == old(self).deep_view().lines,
            final(self).deep_view().start == old(self).deep_view().start,
            final(self).deep_view().end == old(self).deep_view().end,
            match r {
                Some(e) => composite_s(old(self).deep_view().lines, lines_view(lines@)) == Some(
                    e.deep_view(),
                ) && final(self).deep_view().composite_proof == Some(e.deep_view()),
                None => composite_s(old(self).deep_view().lines, lines_view(lines@)) is None
                    && final(self).deep_view().composite_proof == old(
                    self,
                ).deep_view().composite_proof,
            },
    {
        let ghost idsv = line_ids_view(self.lines@);
        proof {
            assert(forall|j: int|
                0 <= j < idsv.len() ==> #[trigger] idsv[j] == self.lines@[j].0);
        }
        if self.lines.len() == 0 {
            return None;
        }
        let first = match find_line(lines, self.lines[0]) {
            Some(l) => l,
            None => {
                proof {
                    assert(idsv.subrange(0, 1).len() == 1);
                    assert(idsv.subrange(0, 1)[0] == idsv[0]);
                    lemma_composite_prefix_none(idsv, lines_view(lines@), 1);
                }
                return None;
            },
        };
        let mut composite = first.proof_term.clone();
        let mut i: usize = 1;
        proof {
            assert(idsv.subrange(0, 1).len() == 1);
            assert(idsv.subrange(0, 1)[0] == idsv[0]);
        }
        while i < self.lines.len()
            invariant
                1 <= i <= self.lines@.len(),
                idsv == line_ids_view(self.lines@),
                idsv.len() == self.lines@.len(),
                forall|j: int| 0 <= j < idsv.len() ==> #[trigger] idsv[j] == self.lines@[j].0,
                composite_s(idsv.subrange(0, i as int), lines_view(lines@)) == Some(
                    composite.deep_view(),
                ),
            decreases self.lines@.len() - i,
        {
            let line = match find_line(lines, self.lines[i]) {
                Some(l) => l,
                None => {
                    proof {
                        assert(idsv.subrange(0, i + 1 as int).drop_last() =~= idsv.subrange(
                            0,
                            i as int,
                        ));
                        assert(idsv.subrange(0, i + 1 as int).last() == idsv[i as int]);
                        lemma_composite_prefix_none(idsv, lines_view(lines@), i + 1 as int);
                    }
                    return None;
                },
            };
            let prev = composite;
            composite = Expr::App {
                func: Box::new(line.proof_term.clone()),
                arg: Box::new(prev),
            };
            proof {
                reveal_with_fuel(crate::syntax::expr_view, 2);
                assert(idsv.subrange(0, i + 1 as int).drop_last() =~= idsv.subrange(0, i as int));
                assert(idsv.subrange(0, i + 1 as int).last() == idsv[i as int]);
            }
            i = i + 1;
        }
        proof {
            assert(idsv.subrange(0, i as int) =~= idsv);
        }
        self.composite_proof = Some(composite.clone());
        Some(composite)
    }
}

/// Once a prefix of the identifiers fails to resolve into a composite, the
/// whole list fails.
proof fn lemma_composite_prefix_none(ids: Seq<u64>, lines: Seq<LineV>, i: int)
    requires
        1 <= i <= ids.len(),
        composite_s(ids.subrange(0, i), lines) is None,
    ensures
        composite_s(ids, lines) is None,
    decreases ids.len() - i,
{
    if i == ids.len() {
        assert(ids.subrange(0, i) =~= ids);
    } else {
        assert(ids.subrange(0, i + 1).drop_last() =~= ids.subrange(0, i));
        lemma_composite_prefix_none(ids, lines, i + 1);
    }
}

} // verus!
