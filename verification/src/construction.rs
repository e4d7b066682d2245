//! The proof graph: points (propositions) and lines (implications) forming a
//! directed acyclic graph with incidence lists, plus path search and the
//! surrounding bookkeeping.
//!
//! Every edit is transactional: an insertion that would break an invariant
//! reports an error and leaves the graph exactly as it was.

use vstd::prelude::*;

use crate::errors::{GeoErrKind, GeometryError};
use crate::line::{find_line, lines_view, Line, LineId, LineV, ProofPath};
use crate::point::{Point, PointId, PointV};
use crate::syntax::{Expr, ExprV};

verus! {

/// View of a list of points.
pub open spec fn points_view(s: Seq<Point>) -> Seq<PointV>
    decreases s,
{
    if s.len() == 0 {
        Seq::empty()
    } else {
        points_view(s.drop_last()).push(s.last().deep_view())
    }
}

/// Index characterisation of `points_view`.
pub proof fn lemma_points_view(s: Seq<Point>)
    ensures
        points_view(s).len() == s.len(),
        forall|i: int| 0 <= i < s.len() ==> #[trigger] points_view(s)[i] == s[i].deep_view(),
    decreases s,
{
    if s.len() > 0 {
        lemma_points_view(s.drop_last());
    }
}

/// View of the incidence lists.
pub open spec fn adj_view(s: Seq<Vec<LineId>>) -> Seq<Seq<u64>> {
    s.map_values(|v: Vec<LineId>| crate::line::line_ids_view(v@))
}

/// The dependency graph of a construction.  Identifiers are dense: the point
/// with identifier `i` sits at position `i`, and likewise for lines.
#[derive(Debug)]
pub struct ConstructionGraph {
    /// All points, in insertion order; a point's identifier is its position.
    pub points: Vec<Point>,
    /// All lines, in insertion order; a line's identifier is its position.
    pub lines: Vec<Line>,
    /// For each point, its outgoing lines in insertion order.
    pub outgoing: Vec<Vec<LineId>>,
    /// For each point, its incoming lines in insertion order.
    pub incoming: Vec<Vec<LineId>>,
    /// The next point identifier; equals the number of points.
    pub next_point_id: u64,
    /// The next line identifier; equals the number of lines.
    pub next_line_id: u64,
}

/// Mathematical view of a graph.
#[verifier::ext_equal]
pub struct GraphV {
    pub points: Seq<PointV>,
    pub lines: Seq<LineV>,
    pub outgoing: Seq<Seq<u64>>,
    pub incoming: Seq<Seq<u64>>,
    pub next_point_id: u64,
    pub next_line_id: u64,
}

impl DeepView for ConstructionGraph {
    type V = GraphV;

    open spec fn deep_view(&self) -> GraphV {
        GraphV {
            points: points_view(self.points@),
            lines: lines_view(self.lines@),
            outgoing: adj_view(self.outgoing@),
            incoming: adj_view(self.incoming@),
            next_point_id: self.next_point_id,
            next_line_id: self.next_line_id,
        }
    }
}

/// A nonempty walk through the lines, given by line positions: consecutive
/// lines link up.
pub open spec fn valid_path(lines: Seq<LineV>, ids: Seq<int>) -> bool {
    &&& ids.len() > 0
    &&& forall|k: int| 0 <= k < ids.len() ==> 0 <= #[trigger] ids[k] < lines.len()
    &&& forall|k: int|
        0 <= k < ids.len() - 1 ==> lines[#[trigger] ids[k]].to == lines[ids[k + 1]].from
}

/// Where a walk starts.
pub open spec fn path_src(lines: Seq<LineV>, ids: Seq<int>) -> u64 {
    lines[ids[0]].from
}

/// Where a walk ends.
pub open spec fn path_dst(lines: Seq<LineV>, ids: Seq<int>) -> u64 {
    lines[ids.last()].to
}

/// A point reaches another along at least one line.
pub open spec fn reach(lines: Seq<LineV>, a: u64, b: u64) -> bool {
    exists|ids: Seq<int>|
        valid_path(lines, ids) && path_src(lines, ids) == a && path_dst(lines, ids) == b
}

/// No walk returns to its start: the graph is a directed acyclic graph.
pub open spec fn acyclic(lines: Seq<LineV>) -> bool {
    forall|ids: Seq<int>|
        valid_path(lines, ids) ==> path_src(lines, ids) != path_dst(lines, ids)
}

/// Well-formedness of a graph: identifiers are dense and stable, incidence
/// lists agree exactly with the lines, every endpoint exists, and the graph
/// is acyclic.
pub open spec fn graph_wf(g: GraphV) -> bool {
    &&& g.outgoing.len() == g.points.len()
    &&& g.incoming.len() == g.points.len()
    &&& g.next_point_id == g.points.len()
    &&& g.next_line_id == g.lines.len()
    &&& g.points.len() <= u64::MAX
    &&& g.lines.len() <= u64::MAX
    &&& forall|i: int| 0 <= i < g.points.len() ==> (#[trigger] g.points[i]).id == i
    &&& forall|j: int|
        0 <= j < g.lines.len() ==> (#[trigger] g.lines[j]).id == j && g.lines[j].from
            < g.points.len() && g.lines[j].to < g.points.len()
    &&& forall|p: int, k: int|
        0 <= p < g.points.len() && 0 <= k < g.outgoing[p].len() ==> 0 <= #[trigger] g.outgoing[p][k]
            < g.lines.len() && g.lines[g.outgoing[p][k] as int].from == p
    &&& forall|j: int|
        0 <= j < g.lines.len() ==> g.outgoing[(#[trigger] g.lines[j]).from as int].contains(j as u64)
    &&& forall|p: int, k: int|
        0 <= p < g.points.len() && 0 <= k < g.incoming[p].len() ==> 0 <= #[trigger] g.incoming[p][k]
            < g.lines.len() && g.lines[g.incoming[p][k] as int].to == p
    &&& forall|j: int|
        0 <= j < g.lines.len() ==> g.incoming[(#[trigger] g.lines[j]).to as int].contains(j as u64)
    &&& forall|p: int| 0 <= p < g.points.len() ==> strict_inc(#[trigger] g.outgoing[p])
    &&& forall|p: int| 0 <= p < g.points.len() ==> strict_inc(#[trigger] g.incoming[p])
    &&& acyclic(g.lines)
}

/// Strictly ascending identifiers.
pub open spec fn strict_inc(s: Seq<u64>) -> bool {
    forall|k1: int, k2: int| #![trigger s[k1], s[k2]] 0 <= k1 < k2 < s.len() ==> s[k1] < s[k2]
}

/// Extending a walk by a line that starts where the walk ends.
pub proof fn lemma_reach_step(lines: Seq<LineV>, a: u64, b: u64, j: int)
    requires
        0 <= j < lines.len(),
        lines[j].from == b,
        a == b || reach(lines, a, b),
    ensures
        reach(lines, a, lines[j].to),
{
    if a == b {
        let ids = seq![j];
        assert(valid_path(lines, ids));
        assert(path_src(lines, ids) == a);
        assert(path_dst(lines, ids) == lines[j].to);
    } else {
        let ids = choose|ids: Seq<int>|
            valid_path(lines, ids) && path_src(lines, ids) == a && path_dst(lines, ids) == b;
        let ids2 = ids.push(j);
        assert(ids2.last() == j);
        assert(forall|k: int| 0 <= k < ids.len() ==> ids2[k] == ids[k]);
        assert(valid_path(lines, ids2)) by {
            assert(forall|k: int|
                0 <= k < ids2.len() - 1 ==> lines[#[trigger] ids2[k]].to == lines[ids2[k
                    + 1]].from) by {
                assert(lines[ids.last()].to == b == lines[j].from);
            }
        }
        assert(path_src(lines, ids2) == a);
        assert(path_dst(lines, ids2) == lines[j].to);
    }
}

/// A set of points that contains a walk's start and is closed under taking
/// lines contains the walk's end.
pub proof fn lemma_closed_under_paths(lines: Seq<LineV>, visited: Seq<bool>, ids: Seq<int>)
    requires
        valid_path(lines, ids),
        forall|j: int|
            0 <= j < lines.len() ==> (#[trigger] lines[j]).from < visited.len() && lines[j].to
                < visited.len(),
        path_src(lines, ids) < visited.len(),
        visited[path_src(lines, ids) as int],
        forall|v: int, j: int|
            #![trigger visited[v], lines[j]]
            0 <= v < visited.len() && visited[v] && 0 <= j < lines.len() && lines[j].from
                == v ==> visited[lines[j].to as int],
    ensures
        visited[path_dst(lines, ids) as int],
    decreases ids.len(),
{
    if ids.len() == 1 {
        assert(visited[lines[ids[0]].from as int]);
    } else {
        let front = ids.drop_last();
        assert(valid_path(lines, front));
        assert(path_src(lines, front) == path_src(lines, ids));
        lemma_closed_under_paths(lines, visited, front);
        assert(lines[front.last()].to == lines[ids.last()].from) by {
            assert(front.last() == ids[ids.len() - 2]);
        }
        assert(visited[lines[ids.last()].from as int]);
    }
}

/// Distances labelling a breadth-first search: every visited point's label
/// is a lower bound on the length of any walk from the source to it.  The
/// exception set holds the points whose outgoing lines are not yet
/// processed (the queue and the point in hand), all labelled at least the
/// current level; every other visited point's lines lead to visited points
/// one level up at most.
pub proof fn lemma_bfs_min(
    lines: Seq<LineV>,
    visited: Seq<bool>,
    dist: Seq<nat>,
    ex: Set<u64>,
    level: nat,
    src: u64,
    ids: Seq<int>,
)
    requires
        forall|j: int|
            0 <= j < lines.len() ==> (#[trigger] lines[j]).from < visited.len() && lines[j].to
                < visited.len(),
        dist.len() == visited.len(),
        src < visited.len(),
        visited[src as int],
        dist[src as int] == 0,
        forall|v: int, j: int|
            #![trigger visited[v], lines[j]]
            0 <= v < visited.len() && visited[v] && !ex.contains(v as u64) && 0 <= j < lines.len()
                && lines[j].from == v ==> visited[lines[j].to as int] && dist[lines[j].to as int]
                <= dist[v] + 1,
        forall|u: u64| #[trigger] ex.contains(u) ==> u < visited.len() && level <= dist[u as int],
        forall|v: int| 0 <= v < visited.len() && #[trigger] visited[v] ==> dist[v] <= level + 1,
        valid_path(lines, ids),
        path_src(lines, ids) == src,
    ensures
        visited[path_dst(lines, ids) as int] ==> ids.len() >= dist[path_dst(lines, ids) as int],
        !visited[path_dst(lines, ids) as int] ==> ids.len() >= level + 1,
    decreases ids.len(),
{
    if ids.len() == 1 {
        let j = ids[0];
        assert(lines[j].from == src);
        if ex.contains(src) {
            assert(level <= dist[src as int]);
        } else {
            assert(visited[lines[j].to as int] && dist[lines[j].to as int] <= dist[src as int]
                + 1);
        }
    } else {
        let front = ids.drop_last();
        assert(valid_path(lines, front));
        assert(path_src(lines, front) == src);
        lemma_bfs_min(lines, visited, dist, ex, level, src, front);
        let u = path_dst(lines, front);
        let j = ids.last();
        assert(lines[j].from == u) by {
            assert(front.last() == ids[ids.len() - 2]);
        }
        assert(u < visited.len());
        if visited[u as int] {
            if !ex.contains(u) {
                assert(visited[lines[j].to as int] && dist[lines[j].to as int] <= dist[u as int]
                    + 1);
            } else {
                assert(level <= dist[u as int]);
            }
        }
    }
}

/// Number of marks in a list of flags.
pub open spec fn count_true(s: Seq<bool>) -> nat
    decreases s,
{
    if s.len() == 0 {
        0
    } else {
        count_true(s.drop_last()) + (if s.last() {
            1nat
        } else {
            0nat
        })
    }
}

/// Marks never outnumber the flags.
pub proof fn lemma_count_true_le(s: Seq<bool>)
    ensures
        count_true(s) <= s.len(),
    decreases s,
{
    if s.len() > 0 {
        lemma_count_true_le(s.drop_last());
    }
}

/// Marking one unmarked flag raises the count by one.
pub proof fn lemma_count_true_update(s: Seq<bool>, i: int)
    requires
        0 <= i < s.len(),
        !s[i],
    ensures
        count_true(s.update(i, true)) == count_true(s) + 1,
    decreases s,
{
    if i == s.len() - 1 {
        assert(s.update(i, true).drop_last() =~= s.drop_last());
    } else {
        assert(s.update(i, true).drop_last() =~= s.drop_last().update(i, true));
        lemma_count_true_update(s.drop_last(), i);
    }
}

impl ConstructionGraph {
    /// The empty graph.
    pub fn new() -> (r: Self)
        ensures
            graph_wf(r.deep_view()),
            r.deep_view().points.len() == 0,
            r.deep_view().lines.len() == 0,
    {
        let r = ConstructionGraph {
            points: Vec::new(),
            lines: Vec::new(),
            outgoing: Vec::new(),
            incoming: Vec::new(),
            next_point_id: 0,
            next_line_id: 0,
        };
        proof {
            assert(points_view(r.points@) =~= Seq::<PointV>::empty());
            assert(lines_view(r.lines@) =~= Seq::<LineV>::empty());
            assert(adj_view(r.outgoing@) =~= Seq::<Seq<u64>>::empty());
            assert(adj_view(r.incoming@) =~= Seq::<Seq<u64>>::empty());
            assert(graph_wf(r.deep_view()));
        }
        r
    }

    /// The number of points.
    pub fn num_points(&self) -> (r: usize)
        ensures
            r == self.deep_view().points.len(),
    {
        proof {
            lemma_points_view(self.points@);
        }
        self.points.len()
    }

    /// The number of lines.
    pub fn num_lines(&self) -> (r: usize)
        ensures
            r == self.deep_view().lines.len(),
    {
        proof {
            crate::line::lemma_lines_view(self.lines@);
        }
        self.lines.len()
    }

    /// Adds a point: a fresh identifier is assigned, the point is stored and
    /// its incidence lists start empty.  Every other component of the graph
    /// stands unchanged, so well-formedness is preserved.
    pub fn add_point(&mut self, point: Point) -> (r: PointId)
        requires
            graph_wf(old(self).deep_view()),
            old(self).deep_view().points.len() < u64::MAX,
        ensures
            graph_wf(final(self).deep_view()),
            r.0 == old(self).deep_view().points.len(),
            final(self).deep_view().points == old(self).deep_view().points.push(
                PointV { id: r.0, ..point.deep_view() },
            ),
            final(self).deep_view().lines == old(self).deep_view().lines,
            final(self).deep_view().outgoing == old(self).deep_view().outgoing.push(
                Seq::<u64>::empty(),
            ),
            final(self).deep_view().incoming == old(self).deep_view().incoming.push(
                Seq::<u64>::empty(),
            ),
    {
        proof {
            lemma_points_view(self.points@);
        }
        let id = PointId(self.next_point_id);
        self.next_point_id = self.next_point_id + 1;
        let stored = Point { id, proposition: point.proposition, label: point.label };
        let ghost old_points = self.points@;
        let ghost old_out = self.outgoing@;
        let ghost old_inc = self.incoming@;
        self.points.push(stored);
        self.outgoing.push(Vec::new());
        self.incoming.push(Vec::new());
        proof {
            assert(self.points@.drop_last() =~= old_points);
            assert(self.points@.last() == stored);
            assert(points_view(self.points@) == points_view(old_points).push(stored.deep_view()));
            assert(stored.deep_view() == (PointV { id: id.0, ..point.deep_view() }));
            assert(crate::line::line_ids_view(Seq::<LineId>::empty()) =~= Seq::<u64>::empty());
            assert(adj_view(self.outgoing@) =~= adj_view(old_out).push(Seq::<u64>::empty()));
            assert(adj_view(self.incoming@) =~= adj_view(old_inc).push(Seq::<u64>::empty()));
            lemma_points_view(old_points);
            lemma_points_view(self.points@);
            assert(graph_wf(final(self).deep_view()));
        }
        id
    }

    /// Whether `to_pt` is reachable from `from_pt` along the lines, decided
    /// by a breadth-first search over the outgoing lists.
    #[verifier::rlimit(100)]
    #[verifier::spinoff_prover]
    fn reaches(&self, from_pt: u64, to_pt: u64) -> (r: bool)
        requires
            graph_wf(self.deep_view()),
            from_pt < self.deep_view().points.len(),
            to_pt < self.deep_view().points.len(),
            from_pt != to_pt,
        ensures
            r == reach(self.deep_view().lines, from_pt, to_pt),
    {
        let ghost g = self.deep_view();
        proof {
            lemma_points_view(self.points@);
            crate::line::lemma_lines_view(self.lines@);
        }
        let n = self.points.len();
        let mut visited: Vec<bool> = Vec::new();
        let mut i: usize = 0;
        while i < n
            invariant
                i <= n,
                visited@.len() == i,
                forall|k: int| 0 <= k < i ==> !(#[trigger] visited@[k]),
            decreases n - i,
        {
            visited.push(false);
            i = i + 1;
        }
        let ghost v0 = visited@;
        proof {
            lemma_count_true_zero(v0);
            lemma_count_true_update(v0, from_pt as int);
        }
        visited.set(from_pt as usize, true);
        let mut queue: Vec<u64> = Vec::new();
        queue.push(from_pt);
        proof {
            assert(visited@ =~= v0.update(from_pt as int, true));
            lemma_count_true_le(visited@);
            assert(queue@ =~= seq![from_pt]);
            assert(queue@[0] == from_pt);
            assert(queue@.contains(from_pt));
        }
        while queue.len() > 0
            invariant
                g == self.deep_view(),
                graph_wf(g),
                from_pt < g.points.len(),
                to_pt < g.points.len(),
                from_pt != to_pt,
                n == g.points.len(),
                visited@.len() == n,
                visited@[from_pt as int],
                forall|k: int| 0 <= k < queue@.len() ==> #[trigger] queue@[k] < n as u64,
                forall|k: int| 0 <= k < queue@.len() ==> visited@[#[trigger] queue@[k] as int],
                forall|v: int|
                    0 <= v < n && #[trigger] visited@[v] ==> v == from_pt || reach(
                        g.lines,
                        from_pt,
                        v as u64,
                    ),
                forall|v: int, j: int|
                    #![trigger visited@[v], g.lines[j]]
                    0 <= v < n && visited@[v] && !queue@.contains(v as u64) && 0 <= j
                        < g.lines.len() && g.lines[j].from == v ==> visited@[g.lines[j].to as int],
                visited@[to_pt as int] ==> queue@.contains(to_pt),
            decreases n - count_true(visited@), queue@.len(),
        {
            let ghost pre_visited = visited@;
            let ghost pre_queue = queue@;
            let cur = queue.remove(0);
            proof {
                assert(pre_queue[0] == cur);
                assert(pre_queue.contains(cur));
                assert(queue@ =~= pre_queue.remove(0));
                lemma_count_true_le(visited@);
                crate::line::lemma_lines_view(self.lines@);
                assert forall|v: u64| pre_queue.contains(v) && v != cur implies queue@.contains(
                    v,
                ) by {
                    let idx = choose|idx: int|
                        0 <= idx < pre_queue.len() && pre_queue[idx] == v;
                    assert(idx > 0);
                    assert(queue@[idx - 1] == v);
                }
            }
            if cur == to_pt {
                return true;
            }
            let ghost mid_queue = queue@;
            let out = &self.outgoing[cur as usize];
            let mut k: usize = 0;
            let ghost adj = g.outgoing[cur as int];
            proof {
                lemma_adj_view_index(self.outgoing@);
                assert(adj == crate::line::line_ids_view(self.outgoing@[cur as int]@));
                assert(out@.len() == adj.len());
                assert(forall|m: int| 0 <= m < adj.len() ==> #[trigger] adj[m] == out@[m].0);
            }
            while k < out.len()
                invariant
                    g == self.deep_view(),
                    graph_wf(g),
                    n == g.points.len(),
                    from_pt < n as u64,
                    to_pt < n as u64,
                    from_pt != to_pt,
                    cur < n as u64,
                    cur != to_pt,
                    visited@.len() == n,
                    visited@[from_pt as int],
                    visited@[cur as int],
                    adj == g.outgoing[cur as int],
                    out@.len() == adj.len(),
                    forall|m: int| 0 <= m < adj.len() ==> #[trigger] adj[m] == out@[m].0,
                    k <= adj.len(),
                    count_true(visited@) >= count_true(pre_visited),
                    count_true(visited@) <= n,
                    queue@.len() + 1 + count_true(pre_visited) == pre_queue.len() + count_true(
                        visited@,
                    ),
                    forall|m: int| 0 <= m < queue@.len() ==> #[trigger] queue@[m] < n as u64,
                    forall|m: int| 0 <= m < queue@.len() ==> visited@[#[trigger] queue@[m] as int],
                    forall|v: int|
                        0 <= v < n && #[trigger] visited@[v] ==> v == from_pt || reach(
                            g.lines,
                            from_pt,
                            v as u64,
                        ),
                    // closure holds for every marked point other than `cur`
                    forall|v: int, j: int|
                        #![trigger visited@[v], g.lines[j]]
                        0 <= v < n && visited@[v] && v != cur && !queue@.contains(v as u64) && 0 <= j
                            < g.lines.len() && g.lines[j].from == v ==> visited@[g.lines[j].to as int],
                    // the lines of `cur` handled so far lead to marked points
                    forall|m: int|
                        0 <= m < k ==> visited@[g.lines[#[trigger] adj[m] as int].to as int],
                    visited@[to_pt as int] ==> queue@.contains(to_pt),
                decreases adj.len() - k,
            {
                let line_id = out[k];
                proof {
                    crate::line::lemma_lines_view(self.lines@);
                    assert(adj[k as int] == line_id.0);
                    assert(line_id.0 < g.lines.len());
                }
                proof {
                    assert(self.lines@.len() == vstd::std_specs::vec::spec_vec_len(&self.lines));
                    assert(line_id.0 < self.lines@.len());
                    assert(line_id.0 as usize as u64 == line_id.0);
                }
                let nb = self.lines[line_id.0 as usize].to.0;
                proof {
                    assert(g.lines == lines_view(self.lines@));
                    assert(g.lines[line_id.0 as int] == self.lines@[line_id.0 as int].deep_view());
                    assert(g.lines[line_id.0 as int].to == nb);
                    assert(nb < n as u64);
                    assert(cur == from_pt || reach(g.lines, from_pt, cur));
                    lemma_reach_step(g.lines, from_pt, cur, line_id.0 as int);
                }
                if !visited[nb as usize] {
                    proof {
                        lemma_count_true_update(visited@, nb as int);
                        lemma_count_true_le(pre_visited);
                    }
                    visited.set(nb as usize, true);
                    let ghost qpre = queue@;
                    queue.push(nb);
                    proof {
                        lemma_count_true_le(visited@);
                        assert(queue@[queue@.len() - 1] == nb);
                        assert(queue@.contains(nb));
                        assert forall|v: u64| qpre.contains(v) implies queue@.contains(v) by {
                            let idx = choose|idx: int| 0 <= idx < qpre.len() && qpre[idx] == v;
                            assert(queue@[idx] == v);
                        }
                    }
                }
                proof {
                    assert(g.lines[adj[k as int] as int].to == nb);
                    assert(visited@[nb as int]);
                }
                k = k + 1;
            }
            proof {
                // after handling all lines of `cur`, the closure holds for it too
                assert(forall|j: int|
                    0 <= j < g.lines.len() && (#[trigger] g.lines[j]).from == cur
                        ==> visited@[g.lines[j].to as int]) by {
                    assert(forall|j: int|
                        0 <= j < g.lines.len() && (#[trigger] g.lines[j]).from == cur
                            ==> g.outgoing[cur as int].contains(j as u64));
                    assert forall|j: int|
                        0 <= j < g.lines.len() && (#[trigger] g.lines[j]).from == cur
                            implies visited@[g.lines[j].to as int] by {
                        let m = choose|m: int|
                            0 <= m < adj.len() && adj[m] == j as u64;
                        assert(g.outgoing[cur as int].contains(j as u64));
                        assert(adj == g.outgoing[cur as int]);
                        assert(exists|m2: int| 0 <= m2 < adj.len() && adj[m2] == j as u64);
                        assert(visited@[g.lines[adj[m] as int].to as int]);
                    }
                }
                lemma_count_true_le(visited@);
                if count_true(visited@) == count_true(pre_visited) {
                    assert(queue@.len() < pre_queue.len());
                }
            }
        }
        proof {
            if reach(g.lines, from_pt, to_pt) {
                let ids = choose|ids: Seq<int>|
                    valid_path(g.lines, ids) && path_src(g.lines, ids) == from_pt && path_dst(
                        g.lines,
                        ids,
                    ) == to_pt;
                lemma_closed_under_paths(g.lines, visited@, ids);
                assert(visited@[to_pt as int]);
                assert(false);
            }
        }
        false
    }
}

/// Zero marks in an unmarked list.
proof fn lemma_count_true_zero(s: Seq<bool>)
    requires
        forall|k: int| 0 <= k < s.len() ==> !(#[trigger] s[k]),
    ensures
        count_true(s) == 0,
    decreases s,
{
    if s.len() > 0 {
        lemma_count_true_zero(s.drop_last());
    }
}

/// Index characterisation of `adj_view`.
pub proof fn lemma_adj_view_index(s: Seq<Vec<LineId>>)
    ensures
        adj_view(s).len() == s.len(),
        forall|i: int|
            0 <= i < s.len() ==> #[trigger] adj_view(s)[i] == crate::line::line_ids_view(s[i]@),
{
}


/// A walk in the extended line list from the new line's target to its source
/// yields one in the old lines alone.
proof fn lemma_strip_new_line(lines: Seq<LineV>, l: LineV, d: Seq<int>)
    requires
        valid_path(lines.push(l), d),
        path_src(lines.push(l), d) == l.to,
        path_dst(lines.push(l), d) == l.from,
        l.from != l.to,
    ensures
        reach(lines, l.to, l.from),
    decreases d.len(),
{
    let lines2 = lines.push(l);
    let n = lines.len() as int;
    if exists|j: int| 0 <= j < d.len() && d[j] == n {
        let j = choose|j: int| 0 <= j < d.len() && d[j] == n;
        if j == d.len() - 1 {
            assert(lines2[n] == l);
            assert(path_dst(lines2, d) == l.to);
        } else {
            let e = d.subrange(j + 1, d.len() as int);
            assert(e.len() > 0);
            assert(forall|k: int| 0 <= k < e.len() ==> e[k] == d[j + 1 + k]);
            assert(valid_path(lines2, e));
            assert(e[0] == d[j + 1]);
            assert(lines2[d[j]].to == lines2[d[j + 1]].from);
            assert(path_src(lines2, e) == l.to);
            assert(e.last() == d.last());
            assert(path_dst(lines2, e) == l.from);
            lemma_strip_new_line(lines, l, e);
        }
    } else {
        assert(forall|k: int| 0 <= k < d.len() ==> 0 <= #[trigger] d[k] < n);
        assert(forall|k: int|
            0 <= k < d.len() ==> lines[#[trigger] d[k]] == lines2[d[k]]);
        assert(valid_path(lines, d));
        assert(path_src(lines, d) == l.to);
        assert(path_dst(lines, d) == l.from);
        assert(reach(lines, l.to, l.from));
    }
}

/// Appending a line whose target does not already lead back to its source
/// keeps the graph acyclic.
pub proof fn lemma_add_line_acyclic(lines: Seq<LineV>, l: LineV)
    requires
        acyclic(lines),
        l.from != l.to,
        !reach(lines, l.to, l.from),
    ensures
        acyclic(lines.push(l)),
{
    let lines2 = lines.push(l);
    let n = lines.len() as int;
    assert forall|ids: Seq<int>| valid_path(lines2, ids) implies path_src(lines2, ids) != path_dst(
        lines2,
        ids,
    ) by {
        if path_src(lines2, ids) == path_dst(lines2, ids) {
            if exists|k: int| 0 <= k < ids.len() && ids[k] == n {
                let k = choose|k: int| 0 <= k < ids.len() && ids[k] == n;
                if ids.len() == 1 {
                    assert(ids[0] == n);
                    assert(lines2[n] == l);
                    assert(path_src(lines2, ids) == l.from);
                    assert(path_dst(lines2, ids) == l.to);
                    assert(false);
                } else {
                    let d = ids.subrange(k + 1, ids.len() as int) + ids.subrange(0, k);
                    assert(d.len() == ids.len() - 1);
                    let tail_len = ids.len() - 1 - k;
                    assert(forall|m: int| 0 <= m < tail_len ==> d[m] == ids[k + 1 + m]);
                    assert(forall|m: int|
                        tail_len <= m < d.len() ==> d[m] == ids[m - tail_len]);
                    assert(valid_path(lines2, d)) by {
                        assert(forall|m: int|
                            0 <= m < d.len() ==> 0 <= #[trigger] d[m] < lines2.len());
                        assert forall|m: int| 0 <= m < d.len() - 1 implies lines2[#[trigger] d[m]].to
                            == lines2[d[m + 1]].from by {
                            if m < tail_len - 1 {
                                assert(d[m] == ids[k + 1 + m]);
                                assert(d[m + 1] == ids[k + 2 + m]);
                            } else if m == tail_len - 1 {
                                assert(d[m] == ids.last());
                                assert(d[m + 1] == ids[0]);
                                assert(lines2[ids.last()].to == path_dst(lines2, ids));
                                assert(lines2[ids[0]].from == path_src(lines2, ids));
                            } else {
                                assert(d[m] == ids[m - tail_len]);
                                assert(d[m + 1] == ids[m + 1 - tail_len]);
                            }
                        }
                    }
                    assert(path_src(lines2, d) == l.to) by {
                        if k < ids.len() - 1 {
                            assert(d[0] == ids[k + 1]);
                            assert(lines2[ids[k]].to == lines2[ids[k + 1]].from);
                        } else {
                            assert(tail_len == 0);
                            assert(d[0] == ids[0]);
                            assert(lines2[ids.last()].to == path_dst(lines2, ids));
                        }
                    }
                    assert(path_dst(lines2, d) == l.from) by {
                        if k > 0 {
                            assert(d.last() == ids[k - 1]);
                            assert(lines2[ids[k - 1]].to == lines2[ids[k]].from);
                        } else {
                            assert(d.last() == ids.last());
                        }
                    }
                    lemma_strip_new_line(lines, l, d);
                    assert(false);
                }
            } else {
                assert(forall|m: int|
                    0 <= m < ids.len() ==> 0 <= #[trigger] ids[m] < lines.len());
                assert(forall|m: int|
                    0 <= m < ids.len() ==> lines[#[trigger] ids[m]] == lines2[ids[m]]);
                assert(valid_path(lines, ids));
                assert(path_src(lines, ids) == path_src(lines2, ids));
                assert(path_dst(lines, ids) == path_dst(lines2, ids));
                assert(false);
            }
        }
    }
}


impl ConstructionGraph {
    /// Adds a line.  Fails with `InvalidConstruction` when an endpoint does
    /// not exist and with `DependencyCycle` when the line would close a
    /// cycle; a failed insertion leaves the graph exactly as it was.
    #[verifier::rlimit(100)]
    pub fn add_line(&mut self, line: Line) -> (r: Result<LineId, GeometryError>)
        requires
            graph_wf(old(self).deep_view()),
            old(self).deep_view().lines.len() < u64::MAX,
        ensures
            graph_wf(final(self).deep_view()),
            match r {
                Ok(id) => {
                    &&& line.deep_view().from < old(self).deep_view().points.len()
                    &&& line.deep_view().to < old(self).deep_view().points.len()
                    &&& line.deep_view().from != line.deep_view().to
                    &&& !reach(
                        old(self).deep_view().lines,
                        line.deep_view().to,
                        line.deep_view().from,
                    )
                    &&& id.0 == old(self).deep_view().lines.len()
                    &&& final(self).deep_view().lines == old(self).deep_view().lines.push(
                        LineV { id: id.0, ..line.deep_view() },
                    )
                    &&& final(self).deep_view().points == old(self).deep_view().points
                    &&& final(self).deep_view().outgoing == old(self).deep_view().outgoing.update(
                        line.deep_view().from as int,
                        old(self).deep_view().outgoing[line.deep_view().from as int].push(id.0),
                    )
                    &&& final(self).deep_view().incoming == old(self).deep_view().incoming.update(
                        line.deep_view().to as int,
                        old(self).deep_view().incoming[line.deep_view().to as int].push(id.0),
                    )
                },
                Err(e) => {
                    &&& final(self).deep_view() == old(self).deep_view()
                    &&& (e.kind() == GeoErrKind::InvalidConstruction <==> (line.deep_view().from
                        >= old(self).deep_view().points.len() || line.deep_view().to >= old(
                        self,
                    ).deep_view().points.len()))
                    &&& (e.kind() == GeoErrKind::DependencyCycle <==> (line.deep_view().from < old(
                        self,
                    ).deep_view().points.len() && line.deep_view().to < old(
                        self,
                    ).deep_view().points.len() && (line.deep_view().from == line.deep_view().to
                        || reach(
                        old(self).deep_view().lines,
                        line.deep_view().to,
                        line.deep_view().from,
                    ))))
                },
            },
            r is Err <==> (line.deep_view().from >= old(self).deep_view().points.len()
                || line.deep_view().to >= old(self).deep_view().points.len()
                || line.deep_view().from == line.deep_view().to || reach(
                old(self).deep_view().lines,
                line.deep_view().to,
                line.deep_view().from,
            )),
    {
        let ghost g0 = self.deep_view();
        proof {
            lemma_points_view(self.points@);
            crate::line::lemma_lines_view(self.lines@);
        }
        let ghost lv_line = line.deep_view();
        let n_points = self.points.len();
        if !(line.from.0 < n_points as u64) {
            let mut m = String::new();
            m.append("the source point does not exist");
            return Err(GeometryError::InvalidConstruction(m));
        }
        if !(line.to.0 < n_points as u64) {
            let mut m = String::new();
            m.append("the target point does not exist");
            return Err(GeometryError::InvalidConstruction(m));
        }
        if line.from.0 == line.to.0 {
            return Err(GeometryError::DependencyCycle);
        }
        if self.reaches(line.to.0, line.from.0) {
            return Err(GeometryError::DependencyCycle);
        }
        let id = LineId(self.next_line_id);
        self.next_line_id = self.next_line_id + 1;
        let stored = Line {
            id,
            from: PointId(line.from.0),
            to: PointId(line.to.0),
            proof_term: line.proof_term,
            label: line.label,
        };
        let ghost lv = stored.deep_view();
        let ghost old_lines = self.lines@;
        let ghost old_out = self.outgoing@;
        let ghost old_inc = self.incoming@;
        let ghost stored_v = stored.deep_view();
        let from_ix = line.from.0 as usize;
        let to_ix = line.to.0 as usize;
        proof {
            assert(line.from.0 as usize as u64 == line.from.0);
            assert(line.to.0 as usize as u64 == line.to.0);
        }
        self.lines.push(stored);
        proof {
            assert(self.lines@.drop_last() =~= old_lines);
            assert(lines_view(self.lines@) == lines_view(old_lines).push(stored_v));
        }
        let out_entry = &mut self.outgoing[from_ix];
        let ghost out_old_entry = out_entry@;
        out_entry.push(id);
        let inc_entry = &mut self.incoming[to_ix];
        let ghost inc_old_entry = inc_entry@;
        inc_entry.push(id);
        proof {
            assert(lv == stored_v);
            assert(lv == (LineV { id: id.0, ..lv_line }));
            assert(crate::line::line_ids_view(out_old_entry.push(id)) =~= crate::line::line_ids_view(
                out_old_entry,
            ).push(id.0));
            assert(crate::line::line_ids_view(inc_old_entry.push(id)) =~= crate::line::line_ids_view(
                inc_old_entry,
            ).push(id.0));
            assert(adj_view(self.outgoing@) =~= g0.outgoing.update(
                lv.from as int,
                g0.outgoing[lv.from as int].push(id.0),
            ));
            assert(adj_view(self.incoming@) =~= g0.incoming.update(
                lv.to as int,
                g0.incoming[lv.to as int].push(id.0),
            ));
            lemma_add_line_acyclic(g0.lines, lv);
            let g1 = final(self).deep_view();
            assert(g1.lines == g0.lines.push(lv));
            assert(graph_wf(g1)) by {
                assert(forall|j: int|
                    0 <= j < g0.lines.len() ==> g1.lines[j] == g0.lines[j]);
                assert(g1.lines[g0.lines.len() as int] == lv);
                assert forall|j: int| 0 <= j < g1.lines.len() implies g1.outgoing[(
                #[trigger] g1.lines[j]).from as int].contains(j as u64) by {
                    if j < g0.lines.len() {
                        assert(g0.outgoing[g0.lines[j].from as int].contains(j as u64));
                        let idx = choose|idx: int|
                            0 <= idx < g0.outgoing[g0.lines[j].from as int].len()
                                && g0.outgoing[g0.lines[j].from as int][idx] == j as u64;
                        assert(g1.outgoing[g1.lines[j].from as int][idx] == j as u64);
                    } else {
                        let e = g1.outgoing[lv.from as int];
                        assert(e[e.len() - 1] == j as u64);
                    }
                }
                assert forall|j: int| 0 <= j < g1.lines.len() implies g1.incoming[(
                #[trigger] g1.lines[j]).to as int].contains(j as u64) by {
                    if j < g0.lines.len() {
                        assert(g0.incoming[g0.lines[j].to as int].contains(j as u64));
                        let idx = choose|idx: int|
                            0 <= idx < g0.incoming[g0.lines[j].to as int].len()
                                && g0.incoming[g0.lines[j].to as int][idx] == j as u64;
                        assert(g1.incoming[g1.lines[j].to as int][idx] == j as u64);
                    } else {
                        let e = g1.incoming[lv.to as int];
                        assert(e[e.len() - 1] == j as u64);
                    }
                }
            }
        }
        Ok(id)
    }
}


/// Appending a line that continues a valid path keeps it valid.
proof fn lemma_path_valid_push(
    ids: Seq<u64>,
    a: u64,
    b: u64,
    lines: Seq<LineV>,
    j: u64,
    l: LineV,
)
    requires
        crate::line::path_valid_s(ids, a, b, lines),
        crate::line::find_line_s(lines, j) == Some(l),
        l.from == b,
    ensures
        crate::line::path_valid_s(ids.push(j), a, l.to, lines),
    decreases ids.len(),
{
    reveal_with_fuel(crate::line::path_valid_s, 3);
    if ids.len() == 0 {
        assert(ids.push(j)[0] == j);
        assert(ids.push(j).skip(1) =~= Seq::<u64>::empty());
    } else {
        let l0 = crate::line::find_line_s(lines, ids[0]).unwrap();
        lemma_path_valid_push(ids.skip(1), l0.to, b, lines, j, l);
        assert(ids.push(j).skip(1) =~= ids.skip(1).push(j));
        assert(ids.push(j)[0] == ids[0]);
    }
}

/// With dense identifiers, finding a line by identifier is indexing.
proof fn lemma_find_line_dense(lines: Seq<LineV>, off: int, id: u64)
    requires
        forall|j: int| 0 <= j < lines.len() ==> (#[trigger] lines[j]).id == j + off,
        off >= 0,
    ensures
        crate::line::find_line_s(lines, id) == if off <= id < off + lines.len() {
            Some(lines[id - off])
        } else {
            None::<LineV>
        },
    decreases lines.len(),
{
    if lines.len() > 0 {
        assert(forall|j: int|
            0 <= j < lines.skip(1).len() ==> (#[trigger] lines.skip(1)[j]).id == j + off + 1);
        lemma_find_line_dense(lines.skip(1), off + 1, id);
    }
}

impl ConstructionGraph {
    /// Finds a path between two points by breadth-first search over the
    /// outgoing lists: the result is a valid path from the one to the other,
    /// and the search fails exactly when an endpoint is unknown or no path
    /// exists.
    #[verifier::rlimit(100)]
    #[verifier::spinoff_prover]
    pub fn find_path(&self, from: PointId, to: PointId) -> (r: Option<ProofPath>)
        requires
            graph_wf(self.deep_view()),
        ensures
            r matches Some(p) ==> {
                &&& p.deep_view().start == from.0
                &&& p.deep_view().end == to.0
                &&& crate::line::path_valid_s(
                    p.deep_view().lines,
                    from.0,
                    to.0,
                    self.deep_view().lines,
                )
                &&& (from.0 == to.0 ==> p.deep_view().lines.len() == 0)
            },
            r is Some <==> (from.0 < self.deep_view().points.len() && to.0
                < self.deep_view().points.len() && (from.0 == to.0 || reach(
                self.deep_view().lines,
                from.0,
                to.0,
            ))),
            r matches Some(p) ==> forall|ids: Seq<int>|
                valid_path(self.deep_view().lines, ids) && path_src(self.deep_view().lines, ids)
                    == from.0 && path_dst(self.deep_view().lines, ids) == to.0
                    ==> ids.len() >= p.deep_view().lines.len(),
    {
        let ghost g = self.deep_view();
        proof {
            lemma_points_view(self.points@);
            crate::line::lemma_lines_view(self.lines@);
            lemma_find_line_dense(g.lines, 0, 0);
        }
        if !(from.0 < self.points.len() as u64) || !(to.0 < self.points.len() as u64) {
            return None;
        }
        if from.0 == to.0 {
            return Some(ProofPath::new(from, to));
        }
        let n = self.points.len();
        let mut visited: Vec<bool> = Vec::new();
        let mut i: usize = 0;
        while i < n
            invariant
                i <= n,
                visited@.len() == i,
                forall|k: int| 0 <= k < i ==> !(#[trigger] visited@[k]),
            decreases n - i,
        {
            visited.push(false);
            i = i + 1;
        }
        let ghost v0 = visited@;
        proof {
            lemma_count_true_zero(v0);
            lemma_count_true_update(v0, from.0 as int);
        }
        visited.set(from.0 as usize, true);
        let mut queue: Vec<(u64, Vec<LineId>)> = Vec::new();
        let empty_ids: Vec<LineId> = Vec::new();
        queue.push((from.0, empty_ids));
        let ghost mut dist: Seq<nat> = Seq::new(n as nat, |i: int| 0nat);
        let ghost mut level: nat = 0;
        let ghost mut qcut: int = 1;
        proof {
            assert(visited@ =~= v0.update(from.0 as int, true));
            lemma_count_true_le(visited@);
            assert(queue@[0].0 == from.0);
            assert(crate::line::line_ids_view(queue@[0].1@) =~= Seq::<u64>::empty());
        }
        while queue.len() > 0
            invariant
                g == self.deep_view(),
                graph_wf(g),
                from.0 < g.points.len(),
                to.0 < g.points.len(),
                from.0 != to.0,
                n == g.points.len(),
                visited@.len() == n,
                visited@[from.0 as int],
                forall|k: int| 0 <= k < queue@.len() ==> (#[trigger] queue@[k]).0 < n as u64,
                forall|k: int| 0 <= k < queue@.len() ==> visited@[(#[trigger] queue@[k]).0 as int],
                forall|k: int|
                    0 <= k < queue@.len() ==> crate::line::path_valid_s(
                        crate::line::line_ids_view((#[trigger] queue@[k]).1@),
                        from.0,
                        queue@[k].0,
                        g.lines,
                    ),
                dist.len() == n,
                dist[from.0 as int] == 0,
                forall|k: int|
                    0 <= k < queue@.len() ==> crate::line::line_ids_view(
                        (#[trigger] queue@[k]).1@,
                    ).len() == dist[queue@[k].0 as int],
                0 <= qcut <= queue@.len(),
                forall|k: int|
                    0 <= k < qcut ==> dist[(#[trigger] queue@[k]).0 as int] == level,
                forall|k: int|
                    qcut <= k < queue@.len() ==> dist[(#[trigger] queue@[k]).0 as int] == level
                        + 1,
                forall|v: int| 0 <= v < n && #[trigger] visited@[v] ==> dist[v] <= level + 1,
                forall|v: int|
                    0 <= v < n && #[trigger] visited@[v] ==> v == from.0 || reach(
                        g.lines,
                        from.0,
                        v as u64,
                    ),
                forall|v: int, j: int|
                    #![trigger visited@[v], g.lines[j]]
                    0 <= v < n && visited@[v] && !has_point(queue@, v as u64) && 0 <= j
                        < g.lines.len() && g.lines[j].from == v ==> visited@[g.lines[j].to as int]
                        && dist[g.lines[j].to as int] <= dist[v] + 1,
                visited@[to.0 as int] ==> has_point(queue@, to.0),
            decreases n - count_true(visited@), queue@.len(),
        {
            let ghost pre_visited = visited@;
            let ghost pre_queue = queue@;
            let entry = queue.remove(0);
            let cur = entry.0;
            let pth = entry.1;
            proof {
                assert(pre_queue[0] == entry);
                assert(has_point(pre_queue, cur));
                assert(queue@ =~= pre_queue.remove(0));
                assert forall|v: u64| has_point(pre_queue, v) && v != cur implies has_point(
                    queue@,
                    v,
                ) by {
                    let idx = choose|idx: int|
                        0 <= idx < pre_queue.len() && pre_queue[idx].0 == v;
                    assert(idx > 0);
                    assert(queue@[idx - 1].0 == v);
                }
                lemma_count_true_le(visited@);
                crate::line::lemma_lines_view(self.lines@);
                assert(crate::line::line_ids_view(pth@).len() == dist[cur as int]);
                assert(forall|k: int|
                    0 <= k < queue@.len() ==> pre_queue[k + 1] == #[trigger] queue@[k]);
                if qcut > 0 {
                    assert(dist[cur as int] == level);
                    qcut = qcut - 1;
                } else {
                    assert(dist[cur as int] == level + 1);
                    level = level + 1;
                    qcut = queue@.len() as int;
                }
                assert(level == dist[cur as int]);
            }
            if cur == to.0 {
                proof {
                    let ghost ex = Set::new(
                        |u: u64| u == cur || has_point(queue@, u),
                    );
                    assert forall|ids: Seq<int>|
                        valid_path(g.lines, ids) && path_src(g.lines, ids) == from.0 && path_dst(
                            g.lines,
                            ids,
                        ) == to.0 implies ids.len() >= crate::line::line_ids_view(pth@).len() by {
                        assert forall|u: u64| #[trigger] ex.contains(u) implies u < n as u64
                            && level <= dist[u as int] by {
                            if u != cur {
                                let idx = choose|idx: int|
                                    0 <= idx < queue@.len() && queue@[idx].0 == u;
                                assert(queue@[idx].0 == u);
                            }
                        }
                        assert forall|v: int, j: int|
                            #![trigger visited@[v], g.lines[j]]
                            0 <= v < n && visited@[v] && !ex.contains(v as u64) && 0 <= j
                                < g.lines.len() && g.lines[j].from == v implies visited@[g.lines[j].to as int]
                            && dist[g.lines[j].to as int] <= dist[v] + 1 by {
                            assert(!has_point(pre_queue, v as u64));
                        }
                        lemma_bfs_min(g.lines, visited@, dist, ex, level, from.0, ids);
                    }
                }
                let r = ProofPath { lines: pth, start: from, end: to, composite_proof: None };
                return Some(r);
            }
            let out = &self.outgoing[cur as usize];
            let mut k: usize = 0;
            let ghost adj = g.outgoing[cur as int];
            proof {
                lemma_adj_view_index(self.outgoing@);
                assert(adj == crate::line::line_ids_view(self.outgoing@[cur as int]@));
                assert(out@.len() == adj.len());
                assert(forall|m: int| 0 <= m < adj.len() ==> #[trigger] adj[m] == out@[m].0);
            }
            while k < out.len()
                invariant
                    g == self.deep_view(),
                    graph_wf(g),
                    n == g.points.len(),
                    from.0 < n as u64,
                    to.0 < n as u64,
                    from.0 != to.0,
                    cur < n as u64,
                    cur != to.0,
                    visited@.len() == n,
                    visited@[from.0 as int],
                    visited@[cur as int],
                    adj == g.outgoing[cur as int],
                    out@.len() == adj.len(),
                    forall|m: int| 0 <= m < adj.len() ==> #[trigger] adj[m] == out@[m].0,
                    k <= adj.len(),
                    count_true(visited@) >= count_true(pre_visited),
                    count_true(visited@) <= n,
                    queue@.len() + 1 + count_true(pre_visited) == pre_queue.len() + count_true(
                        visited@,
                    ),
                    crate::line::path_valid_s(
                        crate::line::line_ids_view(pth@),
                        from.0,
                        cur,
                        g.lines,
                    ),
                    dist.len() == n,
                    dist[from.0 as int] == 0,
                    level == dist[cur as int],
                    crate::line::line_ids_view(pth@).len() == level,
                    forall|m: int| 0 <= m < queue@.len() ==> (#[trigger] queue@[m]).0 < n as u64,
                    forall|m: int|
                        0 <= m < queue@.len() ==> visited@[(#[trigger] queue@[m]).0 as int],
                    forall|m: int|
                        0 <= m < queue@.len() ==> crate::line::path_valid_s(
                            crate::line::line_ids_view((#[trigger] queue@[m]).1@),
                            from.0,
                            queue@[m].0,
                            g.lines,
                        ),
                    forall|m: int|
                        0 <= m < queue@.len() ==> crate::line::line_ids_view(
                            (#[trigger] queue@[m]).1@,
                        ).len() == dist[queue@[m].0 as int],
                    0 <= qcut <= queue@.len(),
                    forall|m: int|
                        0 <= m < qcut ==> dist[(#[trigger] queue@[m]).0 as int] == level,
                    forall|m: int|
                        qcut <= m < queue@.len() ==> dist[(#[trigger] queue@[m]).0 as int]
                            == level + 1,
                    forall|v: int| 0 <= v < n && #[trigger] visited@[v] ==> dist[v] <= level + 1,
                    forall|v: int|
                        0 <= v < n && #[trigger] visited@[v] ==> v == from.0 || reach(
                            g.lines,
                            from.0,
                            v as u64,
                        ),
                    forall|v: int, j: int|
                        #![trigger visited@[v], g.lines[j]]
                        0 <= v < n && visited@[v] && v != cur && !has_point(queue@, v as u64) && 0
                            <= j < g.lines.len() && g.lines[j].from == v ==> visited@[g.lines[j].to as int]
                            && dist[g.lines[j].to as int] <= dist[v] + 1,
                    forall|m: int|
                        0 <= m < k ==> visited@[g.lines[#[trigger] adj[m] as int].to as int]
                            && dist[g.lines[adj[m] as int].to as int] <= level + 1,
                    visited@[to.0 as int] ==> has_point(queue@, to.0),
                decreases adj.len() - k,
            {
                let line_id = out[k];
                proof {
                    crate::line::lemma_lines_view(self.lines@);
                    assert(adj[k as int] == line_id.0);
                    assert(line_id.0 < g.lines.len());
                    assert(self.lines@.len() == vstd::std_specs::vec::spec_vec_len(&self.lines));
                    assert(line_id.0 as usize as u64 == line_id.0);
                }
                let nb = self.lines[line_id.0 as usize].to.0;
                proof {
                    assert(g.lines == lines_view(self.lines@));
                    assert(g.lines[line_id.0 as int] == self.lines@[line_id.0 as int].deep_view());
                    assert(g.lines[line_id.0 as int].to == nb);
                    assert(nb < n as u64);
                    assert(cur == from.0 || reach(g.lines, from.0, cur));
                    lemma_reach_step(g.lines, from.0, cur, line_id.0 as int);
                }
                if !visited[nb as usize] {
                    proof {
                        lemma_count_true_update(visited@, nb as int);
                        lemma_count_true_le(pre_visited);
                    }
                    visited.set(nb as usize, true);
                    proof {
                        dist = dist.update(nb as int, (level + 1) as nat);
                    }
                    let mut pth2 = crate::value::clone_line_ids(&pth);
                    let ghost pth2_pre = pth2@;
                    pth2.push(line_id);
                    proof {
                        lemma_find_line_dense(g.lines, 0, line_id.0);
                        assert(crate::line::find_line_s(g.lines, line_id.0) == Some(
                            g.lines[line_id.0 as int],
                        ));
                        lemma_path_valid_push(
                            crate::line::line_ids_view(pth2_pre),
                            from.0,
                            cur,
                            g.lines,
                            line_id.0,
                            g.lines[line_id.0 as int],
                        );
                        assert(crate::line::line_ids_view(pth2@) =~= crate::line::line_ids_view(
                            pth2_pre,
                        ).push(line_id.0));
                    }
                    let ghost qpre = queue@;
                    queue.push((nb, pth2));
                    proof {
                        lemma_count_true_le(visited@);
                        assert(queue@[queue@.len() - 1].0 == nb);
                        assert(has_point(queue@, nb));
                        assert(forall|m: int| 0 <= m < qpre.len() ==> (#[trigger] qpre[m]).0 != nb);
                        assert(crate::line::line_ids_view(pth2@).len() == level + 1);
                        assert forall|v: u64| has_point(qpre, v) implies has_point(queue@, v) by {
                            let idx = choose|idx: int|
                                0 <= idx < qpre.len() && qpre[idx].0 == v;
                            assert(queue@[idx].0 == v);
                        }
                    }
                }
                proof {
                    assert(g.lines[adj[k as int] as int].to == nb);
                    assert(visited@[nb as int]);
                }
                k = k + 1;
            }
            proof {
                assert(forall|j: int|
                    0 <= j < g.lines.len() && (#[trigger] g.lines[j]).from == cur
                        ==> visited@[g.lines[j].to as int]) by {
                    assert forall|j: int|
                        0 <= j < g.lines.len() && (#[trigger] g.lines[j]).from == cur
                            implies visited@[g.lines[j].to as int] by {
                        assert(g.outgoing[cur as int].contains(j as u64));
                        let m = choose|m: int| 0 <= m < adj.len() && adj[m] == j as u64;
                        assert(visited@[g.lines[adj[m] as int].to as int]);
                    }
                }
                lemma_count_true_le(visited@);
                if count_true(visited@) == count_true(pre_visited) {
                    assert(queue@.len() < pre_queue.len());
                }
            }
        }
        proof {
            if reach(g.lines, from.0, to.0) {
                let ids = choose|ids: Seq<int>|
                    valid_path(g.lines, ids) && path_src(g.lines, ids) == from.0 && path_dst(
                        g.lines,
                        ids,
                    ) == to.0;
                lemma_closed_under_paths(g.lines, visited@, ids);
                assert(false);
            }
        }
        None
    }
}

/// Whether a queue of search entries holds the point.
pub open spec fn has_point(q: Seq<(u64, Vec<LineId>)>, v: u64) -> bool {
    exists|idx: int| 0 <= idx < q.len() && q[idx].0 == v
}


impl ConstructionGraph {
    /// Re-checks that every line's endpoints exist and that no line closes a
    /// cycle.  On a well-formed graph both checks pass.
    pub fn verify(&self) -> (r: Result<(), GeometryError>)
        requires
            graph_wf(self.deep_view()),
        ensures
            r is Ok,
    {
        let ghost g = self.deep_view();
        proof {
            lemma_points_view(self.points@);
            crate::line::lemma_lines_view(self.lines@);
        }
        let mut j: usize = 0;
        while j < self.lines.len()
            invariant
                g == self.deep_view(),
                graph_wf(g),
            decreases self.lines@.len() - j,
        {
            proof {
                crate::line::lemma_lines_view(self.lines@);
                lemma_points_view(self.points@);
                assert(g.lines[j as int] == self.lines@[j as int].deep_view());
            }
            let line = &self.lines[j];
            if !(line.from.0 < self.points.len() as u64) {
                let mut m = String::new();
                m.append("a line references a source point that does not exist");
                return Err(GeometryError::InvalidConstruction(m));
            }
            if !(line.to.0 < self.points.len() as u64) {
                let mut m = String::new();
                m.append("a line references a target point that does not exist");
                return Err(GeometryError::InvalidConstruction(m));
            }
            proof {
                // a degenerate line would itself be a cycle
                let ids = seq![j as int];
                assert(valid_path(g.lines, ids));
                assert(path_src(g.lines, ids) == g.lines[j as int].from);
                assert(path_dst(g.lines, ids) == g.lines[j as int].to);
            }
            let back = self.reaches(line.to.0, line.from.0);
            if back {
                proof {
                    lemma_reach_step(g.lines, g.lines[j as int].to, g.lines[j as int].from, j as int);
                    let ids = choose|ids: Seq<int>|
                        valid_path(g.lines, ids) && path_src(g.lines, ids) == g.lines[j as int].to
                            && path_dst(g.lines, ids) == g.lines[j as int].to;
                    assert(false);
                }
                return Err(GeometryError::DependencyCycle);
            }
            j = j + 1;
        }
        Ok(())
    }

    /// The axioms: points with no incoming lines, in insertion order.
    pub fn axioms(&self) -> (r: Vec<PointId>)
        requires
            graph_wf(self.deep_view()),
        ensures
            forall|k: int|
                0 <= k < r@.len() ==> (#[trigger] r@[k]).0 < self.deep_view().points.len()
                    && self.deep_view().incoming[r@[k].0 as int].len() == 0,
            forall|i: int|
                0 <= i < self.deep_view().points.len() && self.deep_view().incoming[i].len() == 0
                    ==> exists|k: int| 0 <= k < r@.len() && (#[trigger] r@[k]).0 == i,
            forall|k1: int, k2: int|
                #![trigger r@[k1], r@[k2]]
                0 <= k1 < k2 < r@.len() ==> r@[k1].0 < r@[k2].0,
    {
        let ghost g = self.deep_view();
        proof {
            lemma_points_view(self.points@);
            lemma_adj_view_index(self.incoming@);
        }
        let mut r: Vec<PointId> = Vec::new();
        let mut i: usize = 0;
        while i < self.points.len()
            invariant
                g == self.deep_view(),
                graph_wf(g),
                self.points@.len() == g.points.len(),
                i <= g.points.len(),
                forall|k: int|
                    0 <= k < r@.len() ==> (#[trigger] r@[k]).0 < i as u64 && g.incoming[r@[k].0 as int].len()
                        == 0,
                forall|p: int|
                    0 <= p < i && g.incoming[p].len() == 0 ==> exists|k: int|
                        0 <= k < r@.len() && (#[trigger] r@[k]).0 == p,
                forall|k1: int, k2: int|
                    #![trigger r@[k1], r@[k2]]
                    0 <= k1 < k2 < r@.len() ==> r@[k1].0 < r@[k2].0,
            decreases self.points@.len() - i,
        {
            proof {
                lemma_adj_view_index(self.incoming@);
                assert(g.incoming[i as int] == crate::line::line_ids_view(self.incoming@[i as int]@));
            }
            if self.incoming[i].len() == 0 {
                let ghost rpre = r@;
                r.push(PointId(i as u64));
                proof {
                    assert(r@[r@.len() - 1].0 == i as u64);
                    assert forall|p: int|
                        0 <= p < i + 1 && g.incoming[p].len() == 0 implies exists|k: int|
                        0 <= k < r@.len() && (#[trigger] r@[k]).0 == p by {
                        if p < i {
                            let k = choose|k: int| 0 <= k < rpre.len() && rpre[k].0 == p;
                            assert(r@[k].0 == p);
                        } else {
                            assert(r@[r@.len() - 1].0 == p);
                        }
                    }
                }
            }
            i = i + 1;
        }
        r
    }

    /// The theorems: points with no outgoing lines, in insertion order.
    pub fn theorems(&self) -> (r: Vec<PointId>)
        requires
            graph_wf(self.deep_view()),
        ensures
            forall|k: int|
                0 <= k < r@.len() ==> (#[trigger] r@[k]).0 < self.deep_view().points.len()
                    && self.deep_view().outgoing[r@[k].0 as int].len() == 0,
            forall|i: int|
                0 <= i < self.deep_view().points.len() && self.deep_view().outgoing[i].len() == 0
                    ==> exists|k: int| 0 <= k < r@.len() && (#[trigger] r@[k]).0 == i,
            forall|k1: int, k2: int|
                #![trigger r@[k1], r@[k2]]
                0 <= k1 < k2 < r@.len() ==> r@[k1].0 < r@[k2].0,
    {
        let ghost g = self.deep_view();
        proof {
            lemma_points_view(self.points@);
            lemma_adj_view_index(self.outgoing@);
        }
        let mut r: Vec<PointId> = Vec::new();
        let mut i: usize = 0;
        while i < self.points.len()
            invariant
                g == self.deep_view(),
                graph_wf(g),
                self.points@.len() == g.points.len(),
                i <= g.points.len(),
                forall|k: int|
                    0 <= k < r@.len() ==> (#[trigger] r@[k]).0 < i as u64 && g.outgoing[r@[k].0 as int].len()
                        == 0,
                forall|p: int|
                    0 <= p < i && g.outgoing[p].len() == 0 ==> exists|k: int|
                        0 <= k < r@.len() && (#[trigger] r@[k]).0 == p,
                forall|k1: int, k2: int|
                    #![trigger r@[k1], r@[k2]]
                    0 <= k1 < k2 < r@.len() ==> r@[k1].0 < r@[k2].0,
            decreases self.points@.len() - i,
        {
            proof {
                lemma_adj_view_index(self.outgoing@);
                assert(g.outgoing[i as int] == crate::line::line_ids_view(self.outgoing@[i as int]@));
            }
            if self.outgoing[i].len() == 0 {
                let ghost rpre = r@;
                r.push(PointId(i as u64));
                proof {
                    assert(r@[r@.len() - 1].0 == i as u64);
                    assert forall|p: int|
                        0 <= p < i + 1 && g.outgoing[p].len() == 0 implies exists|k: int|
                        0 <= k < r@.len() && (#[trigger] r@[k]).0 == p by {
                        if p < i {
                            let k = choose|k: int| 0 <= k < rpre.len() && rpre[k].0 == p;
                            assert(r@[k].0 == p);
                        } else {
                            assert(r@[r@.len() - 1].0 == p);
                        }
                    }
                }
            }
            i = i + 1;
        }
        r
    }

    /// The longest chain explored from any axiom by a depth-first walk; 0
    /// when the graph has no lines.
    #[verifier::rlimit(100)]
    pub fn compute_depth(&self) -> (r: u64)
        requires
            graph_wf(self.deep_view()),
        ensures
            self.deep_view().lines.len() == 0 ==> r == 0,
    {
        let ghost g = self.deep_view();
        let starts = self.axioms();
        let mut max_depth: u64 = 0;
        let mut a: usize = 0;
        while a < starts.len()
            invariant
                g == self.deep_view(),
                graph_wf(g),
                forall|k: int| 0 <= k < starts@.len() ==> (#[trigger] starts@[k]).0 < g.points.len(),
                g.lines.len() == 0 ==> max_depth == 0,
            decreases starts@.len() - a,
        {
            let d = self.compute_depth_from(starts[a]);
            if d > max_depth {
                max_depth = d;
            }
            a = a + 1;
        }
        max_depth
    }

    /// The deepest level reached by a depth-first walk from the start point,
    /// visiting each point once.
    #[verifier::rlimit(100)]
    pub fn compute_depth_from(&self, start: PointId) -> (r: u64)
        requires
            graph_wf(self.deep_view()),
            start.0 < self.deep_view().points.len(),
        ensures
            self.deep_view().lines.len() == 0 ==> r == 0,
    {
        let ghost g = self.deep_view();
        proof {
            lemma_points_view(self.points@);
            crate::line::lemma_lines_view(self.lines@);
        }
        let n = self.points.len();
        let mut visited: Vec<bool> = Vec::new();
        let mut i: usize = 0;
        while i < n
            invariant
                i <= n,
                visited@.len() == i,
                forall|k: int| 0 <= k < i ==> !(#[trigger] visited@[k]),
            decreases n - i,
        {
            visited.push(false);
            i = i + 1;
        }
        proof {
            lemma_count_true_zero(visited@);
            lemma_count_true_le(visited@);
        }
        let mut max_depth: u64 = 0;
        let mut stack: Vec<(u64, u64)> = Vec::new();
        stack.push((start.0, 0));
        while stack.len() > 0
            invariant
                g == self.deep_view(),
                graph_wf(g),
                n == g.points.len(),
                visited@.len() == n,
                count_true(visited@) <= n,
                forall|k: int| 0 <= k < stack@.len() ==> (#[trigger] stack@[k]).0 < n as u64,
                g.lines.len() == 0 ==> max_depth == 0,
                g.lines.len() == 0 ==> forall|k: int|
                    0 <= k < stack@.len() ==> (#[trigger] stack@[k]).1 == 0,
            decreases n - count_true(visited@), stack@.len(),
        {
            let ghost pre_visited = visited@;
            let entry = match stack.pop() {
                Some(e) => e,
                None => {
                    break;
                },
            };
            let point = entry.0;
            let depth = entry.1;
            if visited[point as usize] {
                continue;
            }
            proof {
                lemma_count_true_update(visited@, point as int);
                lemma_count_true_le(pre_visited);
            }
            visited.set(point as usize, true);
            proof {
                lemma_count_true_le(visited@);
            }
            if depth > max_depth {
                max_depth = depth;
            }
            let out = &self.outgoing[point as usize];
            let mut k: usize = 0;
            let ghost adj = g.outgoing[point as int];
            proof {
                lemma_adj_view_index(self.outgoing@);
                assert(adj == crate::line::line_ids_view(self.outgoing@[point as int]@));
                assert(out@.len() == adj.len());
                assert(forall|m: int| 0 <= m < adj.len() ==> #[trigger] adj[m] == out@[m].0);
            }
            while k < out.len()
                invariant
                    g == self.deep_view(),
                    graph_wf(g),
                    n == g.points.len(),
                    point < n as u64,
                    visited@.len() == n,
                    count_true(visited@) <= n,
                    count_true(visited@) > count_true(pre_visited),
                    adj == g.outgoing[point as int],
                    out@.len() == adj.len(),
                    forall|m: int| 0 <= m < adj.len() ==> #[trigger] adj[m] == out@[m].0,
                    k <= adj.len(),
                    forall|m: int| 0 <= m < stack@.len() ==> (#[trigger] stack@[m]).0 < n as u64,
                    g.lines.len() == 0 ==> max_depth == 0,
                    g.lines.len() == 0 ==> forall|m: int|
                        0 <= m < stack@.len() ==> (#[trigger] stack@[m]).1 == 0,
                decreases adj.len() - k,
            {
                let line_id = out[k];
                proof {
                    crate::line::lemma_lines_view(self.lines@);
                    assert(adj[k as int] == line_id.0);
                    assert(line_id.0 < g.lines.len());
                    assert(self.lines@.len() == vstd::std_specs::vec::spec_vec_len(&self.lines));
                    assert(line_id.0 as usize as u64 == line_id.0);
                }
                let nb = self.lines[line_id.0 as usize].to.0;
                proof {
                    assert(g.lines == lines_view(self.lines@));
                    assert(g.lines[line_id.0 as int] == self.lines@[line_id.0 as int].deep_view());
                    assert(nb < n as u64);
                }
                let next_depth = if depth < u64::MAX {
                    depth + 1
                } else {
                    depth
                };
                stack.push((nb, next_depth));
                k = k + 1;
            }
        }
        max_depth
    }
}


/// Bookkeeping attached to a construction.
#[derive(Debug)]
pub struct ConstructionMetadata {
    /// Creation timestamp, as supplied by the host.
    pub created_at: Option<String>,
    /// Last-modified timestamp, as supplied by the host.
    pub modified_at: Option<String>,
    /// Author.
    pub author: Option<String>,
    /// Tags for organisation.
    pub tags: Vec<String>,
    /// Difficulty rating.
    pub difficulty: Option<u8>,
}

/// View of the metadata.
#[verifier::ext_equal]
pub struct MetadataV {
    pub created_at: Option<Seq<char>>,
    pub modified_at: Option<Seq<char>>,
    pub author: Option<Seq<char>>,
    pub tags: Seq<Seq<char>>,
    pub difficulty: Option<u8>,
}

impl DeepView for ConstructionMetadata {
    type V = MetadataV;

    open spec fn deep_view(&self) -> MetadataV {
        MetadataV {
            created_at: match self.created_at {
                Some(ref s) => Some(s@),
                None => None,
            },
            modified_at: match self.modified_at {
                Some(ref s) => Some(s@),
                None => None,
            },
            author: match self.author {
                Some(ref s) => Some(s@),
                None => None,
            },
            tags: self.tags.deep_view(),
            difficulty: self.difficulty,
        }
    }
}

/// A named construction: the graph, an optional target theorem and metadata.
#[derive(Debug)]
pub struct Construction {
    /// Human-readable name.
    pub name: String,
    /// The underlying graph.
    pub graph: ConstructionGraph,
    /// Target theorem, if one was set.
    pub target: Option<Expr>,
    /// Bookkeeping.
    pub metadata: ConstructionMetadata,
}

/// View of a construction.
#[verifier::ext_equal]
pub struct ConstructionV {
    pub name: Seq<char>,
    pub graph: GraphV,
    pub target: Option<ExprV>,
    pub metadata: MetadataV,
}

impl DeepView for Construction {
    type V = ConstructionV;

    open spec fn deep_view(&self) -> ConstructionV {
        ConstructionV {
            name: self.name@,
            graph: self.graph.deep_view(),
            target: match self.target {
                Some(ref e) => Some(e.deep_view()),
                None => None,
            },
            metadata: self.metadata.deep_view(),
        }
    }
}

impl Construction {
    /// An empty construction with the given name.
    pub fn new(name: String) -> (r: Self)
        ensures
            r.deep_view().name == name@,
            graph_wf(r.deep_view().graph),
            r.deep_view().graph.points.len() == 0,
            r.deep_view().graph.lines.len() == 0,
            r.deep_view().target is None,
    {
        Construction {
            name,
            graph: ConstructionGraph::new(),
            target: None,
            metadata: ConstructionMetadata {
                created_at: None,
                modified_at: None,
                author: None,
                tags: Vec::new(),
                difficulty: None,
            },
        }
    }

    /// Adds a point to the construction.
    pub fn add_point(&mut self, point: Point) -> (r: PointId)
        requires
            graph_wf(old(self).deep_view().graph),
            old(self).deep_view().graph.points.len() < u64::MAX,
        ensures
            graph_wf(final(self).deep_view().graph),
            r.0 == old(self).deep_view().graph.points.len(),
            final(self).deep_view().graph.points == old(self).deep_view().graph.points.push(
                PointV { id: r.0, ..point.deep_view() },
            ),
            final(self).deep_view().graph.lines == old(self).deep_view().graph.lines,
            final(self).deep_view().name == old(self).deep_view().name,
            final(self).deep_view().target == old(self).deep_view().target,
    {
        self.graph.add_point(point)
    }

    /// Adds a line to the construction; a rejected line leaves it unchanged.
    pub fn add_line(&mut self, line: Line) -> (r: Result<LineId, GeometryError>)
        requires
            graph_wf(old(self).deep_view().graph),
            old(self).deep_view().graph.lines.len() < u64::MAX,
        ensures
            graph_wf(final(self).deep_view().graph),
            final(self).deep_view().name == old(self).deep_view().name,
            final(self).deep_view().target == old(self).deep_view().target,
            r is Err ==> final(self).deep_view() == old(self).deep_view(),
            r matches Ok(id) ==> id.0 == old(self).deep_view().graph.lines.len()
                && final(self).deep_view().graph.points == old(self).deep_view().graph.points
                && final(self).deep_view().graph.lines == old(self).deep_view().graph.lines.push(
                (LineV { id: id.0, ..line.deep_view() }),
            ),
            r is Err <==> (line.deep_view().from >= old(self).deep_view().graph.points.len()
                || line.deep_view().to >= old(self).deep_view().graph.points.len()
                || line.deep_view().from == line.deep_view().to || reach(
                old(self).deep_view().graph.lines,
                line.deep_view().to,
                line.deep_view().from,
            )),
    {
        self.graph.add_line(line)
    }

    /// Finds a proof path from one point to another.
    pub fn find_proof_path(&self, from: PointId, to: PointId) -> (r: Option<ProofPath>)
        requires
            graph_wf(self.deep_view().graph),
        ensures
            r is Some <==> (from.0 < self.deep_view().graph.points.len() && to.0
                < self.deep_view().graph.points.len() && (from.0 == to.0 || reach(
                self.deep_view().graph.lines,
                from.0,
                to.0,
            ))),
            r matches Some(p) ==> p.deep_view().start == from.0 && p.deep_view().end == to.0
                && crate::line::path_valid_s(
                p.deep_view().lines,
                from.0,
                to.0,
                self.deep_view().graph.lines,
            ),
            r matches Some(p) ==> forall|ids: Seq<int>|
                valid_path(self.deep_view().graph.lines, ids) && path_src(
                    self.deep_view().graph.lines,
                    ids,
                ) == from.0 && path_dst(self.deep_view().graph.lines, ids) == to.0
                    ==> ids.len() >= p.deep_view().lines.len(),
    {
        self.graph.find_path(from, to)
    }

    /// Verifies the construction's structure.
    pub fn verify(&self) -> (r: Result<(), GeometryError>)
        requires
            graph_wf(self.deep_view().graph),
        ensures
            r is Ok,
    {
        self.graph.verify()
    }

    /// Whether the target theorem occurs as a point of the construction.
    pub fn is_complete(&self) -> (r: bool)
        ensures
            r == match self.deep_view().target {
                Some(t) => exists|i: int|
                    0 <= i < self.deep_view().graph.points.len() && (
                    #[trigger] self.deep_view().graph.points[i]).proposition == t,
                None => false,
            },
    {
        proof {
            lemma_points_view(self.graph.points@);
        }
        match &self.target {
            Some(target) => {
                let mut i: usize = 0;
                while i < self.graph.points.len()
                    invariant
                        self.deep_view().target matches Some(t) && t == target.deep_view(),
                        self.deep_view().graph.points.len() == self.graph.points@.len(),
                        forall|j: int|
                            0 <= j < self.graph.points@.len()
                                ==> #[trigger] self.deep_view().graph.points[j]
                                == self.graph.points@[j].deep_view(),
                        i <= self.graph.points@.len(),
                        forall|j: int|
                            0 <= j < i ==> (#[trigger] self.deep_view().graph.points[j]).proposition
                                != target.deep_view(),
                    decreases self.graph.points@.len() - i,
                {
                    if crate::syntax::expr_eq(&self.graph.points[i].proposition, target) {
                        proof {
                            assert(self.deep_view().graph.points[i as int]
                                == self.graph.points@[i as int].deep_view());
                            assert(self.deep_view().graph.points[i as int].proposition
                                == target.deep_view());
                        }
                        return true;
                    }
                    i = i + 1;
                }
                false
            },
            None => false,
        }
    }

    /// The axioms of the construction.
    pub fn axioms(&self) -> (r: Vec<PointId>)
        requires
            graph_wf(self.deep_view().graph),
        ensures
            forall|k: int|
                0 <= k < r@.len() ==> (#[trigger] r@[k]).0 < self.deep_view().graph.points.len()
                    && self.deep_view().graph.incoming[r@[k].0 as int].len() == 0,
            forall|i: int|
                0 <= i < self.deep_view().graph.points.len()
                    && self.deep_view().graph.incoming[i].len() == 0 ==> exists|k: int|
                    0 <= k < r@.len() && (#[trigger] r@[k]).0 == i,
    {
        self.graph.axioms()
    }

    /// The theorems of the construction.
    pub fn theorems(&self) -> (r: Vec<PointId>)
        requires
            graph_wf(self.deep_view().graph),
        ensures
            forall|k: int|
                0 <= k < r@.len() ==> (#[trigger] r@[k]).0 < self.deep_view().graph.points.len()
                    && self.deep_view().graph.outgoing[r@[k].0 as int].len() == 0,
            forall|i: int|
                0 <= i < self.deep_view().graph.points.len()
                    && self.deep_view().graph.outgoing[i].len() == 0 ==> exists|k: int|
                    0 <= k < r@.len() && (#[trigger] r@[k]).0 == i,
    {
        self.graph.theorems()
    }

    /// The proof depth of the construction.
    pub fn depth(&self) -> (r: u64)
        requires
            graph_wf(self.deep_view().graph),
        ensures
            self.deep_view().graph.lines.len() == 0 ==> r == 0,
    {
        self.graph.compute_depth()
    }

    /// Renders the construction in DOT form.
    pub fn to_dot(&self) -> String
        requires
            graph_wf(self.deep_view().graph),
    {
        self.graph.to_dot(self.name.as_str())
    }
}

impl ConstructionGraph {
    /// Renders the graph in DOT form: nodes and edges in identifier order.
    pub fn to_dot(&self, graph_name: &str) -> String
        requires
            graph_wf(self.deep_view()),
    {
        let ghost g = self.deep_view();
        proof {
            lemma_points_view(self.points@);
            crate::line::lemma_lines_view(self.lines@);
        }
        let mut dot = String::new();
        dot.append("digraph ");
        if graph_name.is_ascii() {
            let mut i: usize = 0;
            let len = graph_name.unicode_len();
            while i < len
                invariant
                    graph_name.is_ascii(),
                    len == graph_name@.len(),
                decreases len - i,
            {
                let c = graph_name.get_char(i);
                if c == ' ' {
                    dot.append("_");
                } else {
                    dot.append(graph_name.substring_ascii(i, i + 1));
                }
                i = i + 1;
            }
        } else {
            dot.append(graph_name);
        }
        dot.append(" {\n");
        dot.append("  rankdir=TB;\n");
        dot.append("  node [shape=circle, style=filled, fillcolor=lightblue];\n");
        let mut i: usize = 0;
        while i < self.points.len()
            invariant
                g == self.deep_view(),
                graph_wf(g),
            decreases self.points@.len() - i,
        {
            dot.append("  p");
            dot.append(crate::text::u64_to_string(self.points[i].id.0).as_str());
            dot.append(" [label=\"");
            dot.append(self.points[i].label.as_str());
            dot.append("\"];\n");
            i = i + 1;
        }
        let mut j: usize = 0;
        while j < self.lines.len()
            invariant
                g == self.deep_view(),
                graph_wf(g),
            decreases self.lines@.len() - j,
        {
            dot.append("  p");
            dot.append(crate::text::u64_to_string(self.lines[j].from.0).as_str());
            dot.append(" -> p");
            dot.append(crate::text::u64_to_string(self.lines[j].to.0).as_str());
            dot.append(" [label=\"");
            dot.append(self.lines[j].label.as_str());
            dot.append("\"];\n");
            j = j + 1;
        }
        dot.append("}\n");
        dot
    }
}


impl Clone for ConstructionMetadata {
    /// Copies the metadata, keeping its view.
    fn clone(&self) -> (res: Self)
        ensures
            res.deep_view() == self.deep_view(),
    {
        let mut tags: Vec<String> = Vec::new();
        let mut i: usize = 0;
        while i < self.tags.len()
            invariant
                i <= self.tags@.len(),
                tags@.len() == i,
                forall|j: int| 0 <= j < i ==> (#[trigger] tags@[j])@ == self.tags@[j]@,
            decreases self.tags@.len() - i,
        {
            let t = self.tags[i].clone();
            tags.push(t);
            i = i + 1;
        }
        proof {
            assert(tags.deep_view() =~= self.tags.deep_view());
        }
        ConstructionMetadata {
            created_at: match &self.created_at {
                Some(s2) => Some(s2.clone()),
                None => None,
            },
            modified_at: match &self.modified_at {
                Some(s2) => Some(s2.clone()),
                None => None,
            },
            author: match &self.author {
                Some(s2) => Some(s2.clone()),
                None => None,
            },
            tags,
            difficulty: self.difficulty,
        }
    }
}

} // verus!
