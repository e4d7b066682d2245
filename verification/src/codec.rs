//! The canonical snapshot of a construction: a flat record stream with the
//! points and lines in identifier order and expressions in their syntax-tree
//! form.  Decoding an encoding returns the original construction exactly;
//! hosts turn the stream into their persistence format of choice.

use vstd::prelude::*;

use crate::construction::{
    adj_view, graph_wf, points_view, Construction, ConstructionGraph, ConstructionMetadata,
    ConstructionV, GraphV,
};
use crate::errors::{GeoErrKind, GeometryError};
use crate::line::{lines_view, Line, LineId};
use crate::point::{Point, PointId};
use crate::syntax::Expr;

verus! {

/// One record of the snapshot stream.
#[derive(Debug)]
pub enum SnapshotRecord {
    /// The construction's name and metadata.
    Header(String, ConstructionMetadata),
    /// The target theorem, when one is set.
    Target(Expr),
    /// One point, in identifier order: its label and proposition.
    PointRec(String, Expr),
    /// One line, in identifier order: endpoints, label and proof term.
    LineRec(u64, u64, String, Expr),
}

/// View of a record.
#[verifier::ext_equal]
pub enum SnapshotRecordV {
    Header(Seq<char>, crate::construction::MetadataV),
    Target(crate::syntax::ExprV),
    PointRec(Seq<char>, crate::syntax::ExprV),
    LineRec(u64, u64, Seq<char>, crate::syntax::ExprV),
}

impl DeepView for SnapshotRecord {
    type V = SnapshotRecordV;

    open spec fn deep_view(&self) -> SnapshotRecordV {
        match self {
            SnapshotRecord::Header(n, m) => SnapshotRecordV::Header(n@, m.deep_view()),
            SnapshotRecord::Target(e) => SnapshotRecordV::Target(e.deep_view()),
            SnapshotRecord::PointRec(l, e) => SnapshotRecordV::PointRec(l@, e.deep_view()),
            SnapshotRecord::LineRec(f, t, l, e) => SnapshotRecordV::LineRec(
                *f,
                *t,
                l@,
                e.deep_view(),
            ),
        }
    }
}

/// View of a record stream.
pub open spec fn recs_view(s: Seq<SnapshotRecord>) -> Seq<SnapshotRecordV>
    decreases s,
{
    if s.len() == 0 {
        Seq::empty()
    } else {
        recs_view(s.drop_last()).push(s.last().deep_view())
    }
}

/// Index characterisation of `recs_view`.
pub proof fn lemma_recs_view(s: Seq<SnapshotRecord>)
    ensures
        recs_view(s).len() == s.len(),
        forall|i: int| 0 <= i < s.len() ==> #[trigger] recs_view(s)[i] == s[i].deep_view(),
    decreases s,
{
    if s.len() > 0 {
        lemma_recs_view(s.drop_last());
    }
}

/// The canonical stream of a construction: the header, the target if any,
/// then every point and every line in identifier order.
pub open spec fn snapshot_of(c: ConstructionV) -> Seq<SnapshotRecordV> {
    seq![SnapshotRecordV::Header(c.name, c.metadata)] + (match c.target {
        Some(t) => seq![SnapshotRecordV::Target(t)],
        None => Seq::<SnapshotRecordV>::empty(),
    }) + Seq::new(
        c.graph.points.len(),
        |i: int| SnapshotRecordV::PointRec(c.graph.points[i].label, c.graph.points[i].proposition),
    ) + Seq::new(
        c.graph.lines.len(),
        |i: int|
            SnapshotRecordV::LineRec(
                c.graph.lines[i].from,
                c.graph.lines[i].to,
                c.graph.lines[i].label,
                c.graph.lines[i].proof_term,
            ),
    )
}


/// The number of header records of a snapshot.
pub open spec fn head_of(c: ConstructionV) -> int {
    1 + (if c.target is Some {
        1int
    } else {
        0int
    })
}

/// Index characterisation of a snapshot.
pub proof fn lemma_snapshot_index(c: ConstructionV)
    ensures
        snapshot_of(c).len() == head_of(c) + c.graph.points.len() + c.graph.lines.len(),
        snapshot_of(c)[0] == SnapshotRecordV::Header(c.name, c.metadata),
        c.target matches Some(t) ==> snapshot_of(c)[1] == SnapshotRecordV::Target(t),
        forall|k: int|
            0 <= k < c.graph.points.len() ==> snapshot_of(c)[head_of(c) + k]
                == SnapshotRecordV::PointRec(
                (#[trigger] c.graph.points[k]).label,
                c.graph.points[k].proposition,
            ),
        forall|k: int|
            0 <= k < c.graph.lines.len() ==> snapshot_of(c)[head_of(c) + c.graph.points.len() + k]
                == SnapshotRecordV::LineRec(
                (#[trigger] c.graph.lines[k]).from,
                c.graph.lines[k].to,
                c.graph.lines[k].label,
                c.graph.lines[k].proof_term,
            ),
{
}

/// Encodes a construction as its canonical record stream.
#[verifier::rlimit(100)]
pub fn serialize_construction(c: &Construction) -> (r: Vec<SnapshotRecord>)
    requires
        graph_wf(c.deep_view().graph),
    ensures
        recs_view(r@) == snapshot_of(c.deep_view()),
{
    let ghost cv = c.deep_view();
    proof {
        points_view_all(c);
    }
    let mut out: Vec<SnapshotRecord> = Vec::new();
    out.push(SnapshotRecord::Header(c.name.clone(), c.metadata.clone()));
    match &c.target {
        Some(t) => {
            out.push(SnapshotRecord::Target(t.clone()));
        },
        None => {},
    }
    let ghost head_len = out@.len() as int;
    proof {
        lemma_recs_view(out@);
        assert(recs_view(out@) =~= snapshot_of(cv).subrange(0, head_len));
    }
    let mut i: usize = 0;
    while i < c.graph.points.len()
        invariant
            cv == c.deep_view(),
            graph_wf(cv.graph),
            cv.graph.points.len() == c.graph.points@.len(),
            forall|j: int|
                0 <= j < c.graph.points@.len() ==> #[trigger] cv.graph.points[j]
                    == c.graph.points@[j].deep_view(),
            cv.graph.lines.len() == c.graph.lines@.len(),
            forall|j: int|
                0 <= j < c.graph.lines@.len() ==> #[trigger] cv.graph.lines[j]
                    == c.graph.lines@[j].deep_view(),
            head_len == 1 + (if cv.target is Some {
                1int
            } else {
                0int
            }),
            i <= c.graph.points@.len(),
            out@.len() == head_len + i,
            recs_view(out@) =~= snapshot_of(cv).subrange(0, head_len + i),
            snapshot_of(cv).len() == head_len + cv.graph.points.len() + cv.graph.lines.len(),
        decreases c.graph.points@.len() - i,
    {
        let p = &c.graph.points[i];
        let ghost pre = out@;
        out.push(SnapshotRecord::PointRec(p.label.clone(), p.proposition.clone()));
        proof {
            assert(out@.drop_last() =~= pre);
            assert(snapshot_of(cv)[head_len + i] == SnapshotRecordV::PointRec(
                cv.graph.points[i as int].label,
                cv.graph.points[i as int].proposition,
            ));
            assert(recs_view(out@) =~= snapshot_of(cv).subrange(0, head_len + i + 1));
        }
        i = i + 1;
    }
    let mut j: usize = 0;
    while j < c.graph.lines.len()
        invariant
            cv == c.deep_view(),
            graph_wf(cv.graph),
            cv.graph.lines.len() == c.graph.lines@.len(),
            cv.graph.points.len() == c.graph.points@.len(),
            forall|k: int|
                0 <= k < c.graph.lines@.len() ==> #[trigger] cv.graph.lines[k]
                    == c.graph.lines@[k].deep_view(),
            head_len == 1 + (if cv.target is Some {
                1int
            } else {
                0int
            }),
            j <= c.graph.lines@.len(),
            out@.len() == head_len + cv.graph.points.len() + j,
            recs_view(out@) =~= snapshot_of(cv).subrange(
                0,
                head_len + cv.graph.points.len() + j,
            ),
            snapshot_of(cv).len() == head_len + cv.graph.points.len() + cv.graph.lines.len(),
        decreases c.graph.lines@.len() - j,
    {
        let l = &c.graph.lines[j];
        let ghost pre = out@;
        out.push(
            SnapshotRecord::LineRec(l.from.0, l.to.0, l.label.clone(), l.proof_term.clone()),
        );
        proof {
            assert(out@.drop_last() =~= pre);
            assert(snapshot_of(cv)[head_len + cv.graph.points.len() + j]
                == SnapshotRecordV::LineRec(
                cv.graph.lines[j as int].from,
                cv.graph.lines[j as int].to,
                cv.graph.lines[j as int].label,
                cv.graph.lines[j as int].proof_term,
            ));
            assert(recs_view(out@) =~= snapshot_of(cv).subrange(
                0,
                head_len + cv.graph.points.len() + j + 1,
            ));
        }
        j = j + 1;
    }
    proof {
        assert(snapshot_of(cv).subrange(0, snapshot_of(cv).len() as int) =~= snapshot_of(cv));
    }
    out
}

/// Index facts for a construction's views.
proof fn points_view_all(c: &Construction)
    ensures
        c.deep_view().graph.points.len() == c.graph.points@.len(),
        forall|j: int|
            0 <= j < c.graph.points@.len() ==> #[trigger] c.deep_view().graph.points[j]
                == c.graph.points@[j].deep_view(),
        c.deep_view().graph.lines.len() == c.graph.lines@.len(),
        forall|j: int|
            0 <= j < c.graph.lines@.len() ==> #[trigger] c.deep_view().graph.lines[j]
                == c.graph.lines@[j].deep_view(),
{
    crate::construction::lemma_points_view(c.graph.points@);
    crate::line::lemma_lines_view(c.graph.lines@);
}

/// A path valid over a prefix of the lines is valid over the whole list,
/// with the same endpoints.
proof fn lemma_prefix_path_lift(full: Seq<crate::line::LineV>, m: int, ids: Seq<int>)
    requires
        0 <= m <= full.len(),
        crate::construction::valid_path(full.subrange(0, m), ids),
    ensures
        crate::construction::valid_path(full, ids),
        crate::construction::path_src(full, ids) == crate::construction::path_src(
            full.subrange(0, m),
            ids,
        ),
        crate::construction::path_dst(full, ids) == crate::construction::path_dst(
            full.subrange(0, m),
            ids,
        ),
{
    let pre = full.subrange(0, m);
    assert(forall|k: int| 0 <= k < ids.len() ==> full[#[trigger] ids[k]] == pre[ids[k]]);
}

/// Appending the next line of an acyclic list to a graph holding a strict
/// prefix of it cannot be refused: the endpoints exist, the line is no
/// self-loop, and no back path exists.
proof fn lemma_canonical_line_insertable(g: crate::construction::GraphV, cnt: int)
    requires
        graph_wf(g),
        0 <= cnt < g.lines.len(),
    ensures
        g.lines[cnt].from < g.points.len(),
        g.lines[cnt].to < g.points.len(),
        g.lines[cnt].from != g.lines[cnt].to,
        !crate::construction::reach(
            g.lines.subrange(0, cnt),
            g.lines[cnt].to,
            g.lines[cnt].from,
        ),
{
    let l = g.lines[cnt];
    assert(crate::construction::valid_path(g.lines, seq![cnt]));
    assert(crate::construction::path_src(g.lines, seq![cnt]) == l.from);
    assert(crate::construction::path_dst(g.lines, seq![cnt]) == l.to);
    if crate::construction::reach(g.lines.subrange(0, cnt), l.to, l.from) {
        let ids = choose|ids: Seq<int>|
            crate::construction::valid_path(g.lines.subrange(0, cnt), ids)
                && crate::construction::path_src(g.lines.subrange(0, cnt), ids) == l.to
                && crate::construction::path_dst(g.lines.subrange(0, cnt), ids) == l.from;
        lemma_prefix_path_lift(g.lines, cnt, ids);
        crate::construction::lemma_reach_step(g.lines, l.to, l.from, cnt);
        let ids2 = choose|ids2: Seq<int>|
            crate::construction::valid_path(g.lines, ids2) && crate::construction::path_src(
                g.lines,
                ids2,
            ) == l.to && crate::construction::path_dst(g.lines, ids2) == l.to;
        assert(false);
    }
}

/// Decodes a record stream back into a construction.  A decoded
/// construction is well formed and encodes back to exactly the consumed
/// stream; and decoding succeeds on every stream that is the canonical
/// snapshot of some well-formed construction — in particular on the
/// encoder's output, which closes the round trip.
#[verifier::rlimit(100)]
pub fn deserialize_construction(records: &Vec<SnapshotRecord>) -> (r: Result<
    Construction,
    GeometryError,
>)
    ensures
        r matches Ok(c) ==> graph_wf(c.deep_view().graph) && recs_view(records@) == snapshot_of(
            c.deep_view(),
        ),
        (exists|c0: ConstructionV| graph_wf(c0.graph) && recs_view(records@) == snapshot_of(c0))
            ==> r is Ok,
{
    proof {
        lemma_recs_view(records@);
    }
    let ghost rv = recs_view(records@);
    let ghost canon = exists|c0: ConstructionV| graph_wf(c0.graph) && rv == snapshot_of(c0);
    let ghost c0 = if canon {
        choose|c0: ConstructionV| graph_wf(c0.graph) && rv == snapshot_of(c0)
    } else {
        arbitrary()
    };
    proof {
        if canon {
            lemma_snapshot_index(c0);
        }
    }
    if records.len() == 0 {
        proof {
            if canon {
                assert(false);
            }
        }
        let mut m = String::new();
        m.append("the snapshot is empty");
        return Err(GeometryError::InvalidConstruction(m));
    }
    let (name, metadata) = match &records[0] {
        SnapshotRecord::Header(n, m) => (n.clone(), m.clone()),
        _ => {
            proof {
                if canon {
                    assert(rv[0] == records@[0].deep_view());
                    assert(false);
                }
            }
            let mut m = String::new();
            m.append("the snapshot does not start with its header");
            return Err(GeometryError::InvalidConstruction(m));
        },
    };
    let mut pos: usize = 1;
    let mut target: Option<Expr> = None;
    if pos < records.len() {
        match &records[pos] {
            SnapshotRecord::Target(t) => {
                target = Some(t.clone());
                pos = pos + 1;
            },
            _ => {},
        }
    }
    let ghost head_len = pos as int;
    proof {
        if canon {
            assert(head_len == head_of(c0)) by {
                if c0.target is Some {
                    assert(rv[1] == SnapshotRecordV::Target(c0.target->Some_0));
                    assert(records@[1].deep_view() == rv[1]);
                } else {
                    if 1 < rv.len() {
                        if c0.graph.points.len() > 0 {
                            assert(rv[1] == SnapshotRecordV::PointRec(
                                c0.graph.points[0].label,
                                c0.graph.points[0].proposition,
                            ));
                        } else {
                            assert(rv[1] == SnapshotRecordV::LineRec(
                                c0.graph.lines[0].from,
                                c0.graph.lines[0].to,
                                c0.graph.lines[0].label,
                                c0.graph.lines[0].proof_term,
                            ));
                        }
                        assert(records@[1].deep_view() == rv[1]);
                    }
                }
            }
        }
    }
    let mut graph = ConstructionGraph::new();
    while pos < records.len() && matches!(&records[pos], SnapshotRecord::PointRec(_, _))
        invariant
            rv == recs_view(records@),
            rv.len() == records@.len(),
            forall|k: int| 0 <= k < rv.len() ==> #[trigger] rv[k] == records@[k].deep_view(),
            1 <= head_len <= pos <= records@.len(),
            canon == (exists|c0x: ConstructionV|
                graph_wf(c0x.graph) && rv == snapshot_of(c0x)),
            canon ==> graph_wf(c0.graph) && rv == snapshot_of(c0) && head_len == head_of(c0),
            canon ==> pos <= head_len + c0.graph.points.len(),
            graph_wf(graph.deep_view()),
            graph.deep_view().points.len() == pos - head_len,
            graph.deep_view().lines.len() == 0,
            forall|k: int|
                0 <= k < pos - head_len ==> #[trigger] rv[head_len + k]
                    == SnapshotRecordV::PointRec(
                    graph.deep_view().points[k].label,
                    graph.deep_view().points[k].proposition,
                ),
        decreases records@.len() - pos,
    {
        proof {
            if canon {
                lemma_snapshot_index(c0);
                if pos == head_len + c0.graph.points.len() {
                    if c0.graph.lines.len() > 0 {
                        assert(rv[pos as int] == SnapshotRecordV::LineRec(
                            c0.graph.lines[0].from,
                            c0.graph.lines[0].to,
                            c0.graph.lines[0].label,
                            c0.graph.lines[0].proof_term,
                        ));
                        assert(records@[pos as int].deep_view() == rv[pos as int]);
                        assert(false);
                    } else {
                        assert(false);
                    }
                }
            }
        }
        let (label, prop) = match &records[pos] {
            SnapshotRecord::PointRec(l, e) => (l.clone(), e.clone()),
            _ => {
                let mut m = String::new();
                m.append("unreachable record kind");
                return Err(GeometryError::InvalidConstruction(m));
            },
        };
        proof {
            crate::construction::lemma_points_view(graph.points@);
            assert(graph.deep_view().points.len() < records@.len());
        }
        if graph.points.len() == usize::MAX {
            proof {
                assert(false);
            }
            let mut m = String::new();
            m.append("too many points");
            return Err(GeometryError::InvalidConstruction(m));
        }
        let _ = graph.add_point(Point::new(PointId(0), prop, label));
        pos = pos + 1;
    }
    let ghost n_points = pos - head_len;
    let ghost after_points = pos as int;
    proof {
        if canon {
            lemma_snapshot_index(c0);
            assert(n_points == c0.graph.points.len()) by {
                if pos < records@.len() {
                    if pos < head_len + c0.graph.points.len() {
                        assert(rv[pos as int] == SnapshotRecordV::PointRec(
                            (#[trigger] c0.graph.points[pos - head_len]).label,
                            c0.graph.points[pos - head_len].proposition,
                        ));
                        assert(records@[pos as int].deep_view() == rv[pos as int]);
                        assert(false);
                    }
                }
            }
            assert(graph.deep_view().lines =~= c0.graph.lines.subrange(0, 0));
        }
    }
    while pos < records.len()
        invariant
            rv == recs_view(records@),
            rv.len() == records@.len(),
            forall|k: int| 0 <= k < rv.len() ==> #[trigger] rv[k] == records@[k].deep_view(),
            head_len + n_points == after_points,
            1 <= head_len,
            0 <= n_points,
            after_points <= pos <= records@.len(),
            canon == (exists|c0x: ConstructionV|
                graph_wf(c0x.graph) && rv == snapshot_of(c0x)),
            canon ==> graph_wf(c0.graph) && rv == snapshot_of(c0) && head_len == head_of(c0)
                && n_points == c0.graph.points.len(),
            canon ==> graph.deep_view().lines == c0.graph.lines.subrange(0, pos - after_points),
            graph_wf(graph.deep_view()),
            graph.deep_view().points.len() == n_points,
            graph.deep_view().lines.len() == pos - after_points,
            forall|k: int|
                0 <= k < n_points ==> #[trigger] rv[head_len + k] == SnapshotRecordV::PointRec(
                    graph.deep_view().points[k].label,
                    graph.deep_view().points[k].proposition,
                ),
            forall|k: int|
                0 <= k < pos - after_points ==> #[trigger] rv[after_points + k]
                    == SnapshotRecordV::LineRec(
                    graph.deep_view().lines[k].from,
                    graph.deep_view().lines[k].to,
                    graph.deep_view().lines[k].label,
                    graph.deep_view().lines[k].proof_term,
                ),
        decreases records@.len() - pos,
    {
        let ghost cnt = pos - after_points;
        proof {
            if canon {
                lemma_snapshot_index(c0);
                assert(cnt < c0.graph.lines.len());
                assert(rv[pos as int] == SnapshotRecordV::LineRec(
                    (#[trigger] c0.graph.lines[cnt]).from,
                    c0.graph.lines[cnt].to,
                    c0.graph.lines[cnt].label,
                    c0.graph.lines[cnt].proof_term,
                ));
                assert(records@[pos as int].deep_view() == rv[pos as int]);
            }
        }
        let (from, to, label, term) = match &records[pos] {
            SnapshotRecord::LineRec(f, t, l, e) => (*f, *t, l.clone(), e.clone()),
            _ => {
                proof {
                    if canon {
                        assert(records@[pos as int].deep_view() is LineRec);
                        assert(records@[pos as int] is LineRec);
                        assert(false);
                    }
                }
                let mut m = String::new();
                m.append("a record is out of place in the snapshot");
                return Err(GeometryError::InvalidConstruction(m));
            },
        };
        proof {
            crate::line::lemma_lines_view(graph.lines@);
            assert(graph.deep_view().lines.len() < records@.len());
        }
        if graph.lines.len() == usize::MAX {
            proof {
                assert(false);
            }
            let mut m = String::new();
            m.append("too many lines");
            return Err(GeometryError::InvalidConstruction(m));
        }
        let ghost pre_lines = graph.deep_view().lines;
        let added = graph.add_line(Line::new(LineId(0), PointId(from), PointId(to), term, label));
        match added {
            Ok(_) => {
                proof {
                    if canon {
                        assert(graph.deep_view().lines =~= c0.graph.lines.subrange(0, cnt + 1))
                            by {
                            assert(graph.deep_view().lines == pre_lines.push(
                                graph.deep_view().lines.last(),
                            ));
                            assert(graph.deep_view().lines.last() =~= c0.graph.lines[cnt]);
                            assert(c0.graph.lines.subrange(0, cnt + 1).drop_last()
                                =~= c0.graph.lines.subrange(0, cnt));
                        }
                    }
                }
            },
            Err(e) => {
                proof {
                    if canon {
                        lemma_canonical_line_insertable(c0.graph, cnt);
                        assert(pre_lines == c0.graph.lines.subrange(0, cnt));
                        assert(from == c0.graph.lines[cnt].from);
                        assert(to == c0.graph.lines[cnt].to);
                        assert(from < n_points as u64 && to < n_points as u64 && from != to);
                        assert(!crate::construction::reach(pre_lines, to, from));
                        assert(false);
                    }
                }
                return Err(e);
            },
        };
        pos = pos + 1;
    }
    let ghost n_lines = pos - after_points;
    let c = Construction { name, graph, target, metadata };
    proof {
        let cv = c.deep_view();
        lemma_snapshot_index(cv);
        assert(head_of(cv) == head_len);
        assert(snapshot_of(cv).len() == head_len + n_points + n_lines);
        assert(rv.len() == head_len + n_points + n_lines);
        assert forall|k: int| 0 <= k < rv.len() implies rv[k] == snapshot_of(cv)[k] by {
            if k == 0 {
                assert(rv[0] == records@[0].deep_view());
            } else if k < head_len {
                assert(k == 1);
            } else if k < head_len + n_points {
                assert(rv[head_len + (k - head_len)] == SnapshotRecordV::PointRec(
                    cv.graph.points[k - head_len].label,
                    cv.graph.points[k - head_len].proposition,
                ));
            } else {
                assert(rv[after_points + (k - after_points)] == SnapshotRecordV::LineRec(
                    cv.graph.lines[k - after_points].from,
                    cv.graph.lines[k - after_points].to,
                    cv.graph.lines[k - after_points].label,
                    cv.graph.lines[k - after_points].proof_term,
                ));
            }
        }
        assert(rv =~= snapshot_of(cv));
    }
    Ok(c)
}

/// The snapshot determines the construction: two well-formed constructions
/// with the same canonical stream are the same.  With the encoder's and
/// decoder's contracts this pins a decoded encoding down to the original.
pub proof fn lemma_snapshot_injective(a: ConstructionV, b: ConstructionV)
    requires
        graph_wf(a.graph),
        graph_wf(b.graph),
        snapshot_of(a) == snapshot_of(b),
    ensures
        a =~~= b,
{
    lemma_snapshot_index(a);
    lemma_snapshot_index(b);
    assert(snapshot_of(a)[0] == SnapshotRecordV::Header(a.name, a.metadata));
    assert(snapshot_of(b)[0] == SnapshotRecordV::Header(b.name, b.metadata));
    assert(head_of(a) == head_of(b)) by {
        if a.target is Some && b.target is None {
            lemma_target_kind(a, b);
        }
        if b.target is Some && a.target is None {
            lemma_target_kind(b, a);
        }
        assert(a.target is Some <==> b.target is Some);
    }
    assert(a.target =~~= b.target) by {
        if a.target is Some {
            assert(snapshot_of(a)[1] == SnapshotRecordV::Target(a.target.unwrap()));
            assert(snapshot_of(b)[1] == SnapshotRecordV::Target(b.target.unwrap()));
        }
    }
    let h = head_of(a);
    assert(a.graph.points.len() == b.graph.points.len()) by {
        lemma_point_count(a, b);
        lemma_point_count(b, a);
    }
    assert(a.graph.lines.len() == b.graph.lines.len());
    assert forall|k: int| 0 <= k < a.graph.points.len() implies #[trigger] a.graph.points[k] =~~= b.graph.points[k]
        by {
        assert(snapshot_of(a)[h + k] == SnapshotRecordV::PointRec(
            a.graph.points[k].label,
            a.graph.points[k].proposition,
        ));
        assert(snapshot_of(b)[h + k] == SnapshotRecordV::PointRec(
            b.graph.points[k].label,
            b.graph.points[k].proposition,
        ));
        assert(a.graph.points[k].id == k);
        assert(b.graph.points[k].id == k);
    }
    let np = a.graph.points.len() as int;
    assert forall|k: int| 0 <= k < a.graph.lines.len() implies #[trigger] a.graph.lines[k] =~~= b.graph.lines[k]
        by {
        assert(snapshot_of(a)[h + np + k] == SnapshotRecordV::LineRec(
            a.graph.lines[k].from,
            a.graph.lines[k].to,
            a.graph.lines[k].label,
            a.graph.lines[k].proof_term,
        ));
        assert(snapshot_of(b)[h + np + k] == SnapshotRecordV::LineRec(
            b.graph.lines[k].from,
            b.graph.lines[k].to,
            b.graph.lines[k].label,
            b.graph.lines[k].proof_term,
        ));
        assert(a.graph.lines[k].id == k);
        assert(b.graph.lines[k].id == k);
    }
    assert(a.graph.points =~~= b.graph.points);
    assert(a.graph.lines =~~= b.graph.lines);
    lemma_adjacency_determined(a.graph, b.graph);
    assert(a.graph =~~= b.graph);
}

/// A snapshot with a target pins the second record to a target record, so
/// the other construction has a target too.
proof fn lemma_target_kind(a: ConstructionV, b: ConstructionV)
    requires
        graph_wf(a.graph),
        graph_wf(b.graph),
        a.target is Some,
        snapshot_of(a) == snapshot_of(b),
    ensures
        b.target is Some,
{
    if b.target is Some {
        return ;
    }
    lemma_snapshot_index(a);
    lemma_snapshot_index(b);
    assert(snapshot_of(a)[1] == SnapshotRecordV::Target(a.target.unwrap()));
    if b.graph.points.len() > 0 {
        assert(snapshot_of(b)[1] == SnapshotRecordV::PointRec(
            b.graph.points[0].label,
            b.graph.points[0].proposition,
        ));
    } else if b.graph.lines.len() > 0 {
        assert(snapshot_of(b)[1] == SnapshotRecordV::LineRec(
            b.graph.lines[0].from,
            b.graph.lines[0].to,
            b.graph.lines[0].label,
            b.graph.lines[0].proof_term,
        ));
    } else {
        assert(snapshot_of(b).len() == 1);
        assert(snapshot_of(a).len() >= 2);
    }
    assert(false);
}

/// With equal streams and equal headers, a shorter point list would put a
/// point record against a line record or run past the stream's end.
proof fn lemma_point_count(a: ConstructionV, b: ConstructionV)
    requires
        graph_wf(a.graph),
        graph_wf(b.graph),
        head_of(a) == head_of(b),
        snapshot_of(a) == snapshot_of(b),
    ensures
        a.graph.points.len() >= b.graph.points.len(),
{
    if a.graph.points.len() >= b.graph.points.len() {
        return ;
    }
    lemma_snapshot_index(a);
    lemma_snapshot_index(b);
    let h = head_of(a);
    let k = a.graph.points.len() as int;
    assert(snapshot_of(b)[h + k] == SnapshotRecordV::PointRec(
        b.graph.points[k].label,
        b.graph.points[k].proposition,
    ));
    if k < a.graph.points.len() + a.graph.lines.len() {
        assert(snapshot_of(a)[h + a.graph.points.len() + (k - a.graph.points.len())]
            == SnapshotRecordV::LineRec(
            a.graph.lines[k - a.graph.points.len()].from,
            a.graph.lines[k - a.graph.points.len()].to,
            a.graph.lines[k - a.graph.points.len()].label,
            a.graph.lines[k - a.graph.points.len()].proof_term,
        ));
    } else {
        assert(snapshot_of(a).len() == h + k);
        assert(snapshot_of(b).len() > h + k);
    }
    assert(false);
}

/// Two well-formed graphs with the same points and lines have the same
/// incidence lists: each list holds exactly the lines at its point, in
/// identifier order.
proof fn lemma_adjacency_determined(a: GraphV, b: GraphV)
    requires
        graph_wf(a),
        graph_wf(b),
        a.points == b.points,
        a.lines == b.lines,
    ensures
        a.outgoing =~~= b.outgoing,
        a.incoming =~~= b.incoming,
        a.next_point_id == b.next_point_id,
        a.next_line_id == b.next_line_id,
{
    assert forall|p: int| 0 <= p < a.points.len() implies #[trigger] a.outgoing[p] =~= b.outgoing[p]
        by {
        lemma_adj_sorted_unique(a, b, p);
    }
    assert forall|p: int| 0 <= p < a.points.len() implies #[trigger] a.incoming[p] =~= b.incoming[p]
        by {
        lemma_inc_sorted_unique(a, b, p);
    }
}

/// Two strictly ascending lists with the same members coincide.
proof fn lemma_sorted_same_members(x: Seq<u64>, y: Seq<u64>)
    requires
        crate::construction::strict_inc(x),
        crate::construction::strict_inc(y),
        forall|v: u64| x.contains(v) <==> y.contains(v),
    ensures
        x =~= y,
    decreases x.len(),
{
    if x.len() == 0 {
        if y.len() > 0 {
            assert(y.contains(y[0]));
            assert(x.contains(y[0]));
        }
    } else if y.len() == 0 {
        assert(x.contains(x[0]));
        assert(y.contains(x[0]));
    } else {
        assert(x.contains(x[0]));
        assert(y.contains(y[0]));
        let k = choose|k: int| 0 <= k < y.len() && y[k] == x[0];
        let m = choose|m: int| 0 <= m < x.len() && x[m] == y[0];
        assert(x[0] == y[0]) by {
            if k > 0 {
                assert(y[0] < y[k]);
                if m > 0 {
                    assert(x[0] < x[m]);
                    assert(false);
                } else {
                    assert(x[0] == y[0]);
                    assert(false);
                }
            }
        }
        let xt = x.skip(1);
        let yt = y.skip(1);
        assert(crate::construction::strict_inc(xt)) by {
            assert(forall|k1: int, k2: int|
                #![trigger xt[k1], xt[k2]]
                0 <= k1 < k2 < xt.len() ==> x[k1 + 1] < x[k2 + 1]);
        }
        assert(crate::construction::strict_inc(yt)) by {
            assert(forall|k1: int, k2: int|
                #![trigger yt[k1], yt[k2]]
                0 <= k1 < k2 < yt.len() ==> y[k1 + 1] < y[k2 + 1]);
        }
        assert forall|v: u64| xt.contains(v) implies yt.contains(v) by {
            let i = choose|i: int| 0 <= i < xt.len() && xt[i] == v;
            assert(x[i + 1] == v);
            assert(x.contains(v));
            assert(v > x[0]);
            let j = choose|j: int| 0 <= j < y.len() && y[j] == v;
            assert(j > 0);
            assert(yt[j - 1] == v);
        }
        assert forall|v: u64| yt.contains(v) implies xt.contains(v) by {
            let i = choose|i: int| 0 <= i < yt.len() && yt[i] == v;
            assert(y[i + 1] == v);
            assert(y.contains(v));
            assert(v > y[0]);
            let j = choose|j: int| 0 <= j < x.len() && x[j] == v;
            assert(j > 0);
            assert(xt[j - 1] == v);
        }
        assert(forall|v: u64| xt.contains(v) <==> yt.contains(v));
        lemma_sorted_same_members(xt, yt);
        assert(forall|i: int| 0 <= i < xt.len() ==> x[i + 1] == #[trigger] xt[i]);
        assert(forall|i: int| 0 <= i < yt.len() ==> y[i + 1] == #[trigger] yt[i]);
        assert(x.len() == y.len());
        assert forall|i: int| 0 <= i < x.len() implies x[i] == y[i] by {
            if i > 0 {
                assert(xt[i - 1] == yt[i - 1]);
                assert(x[i] == xt[i - 1]);
                assert(y[i] == yt[i - 1]);
            }
        }
    }
}

/// Under well-formedness, membership in an outgoing list means exactly being
/// a line out of the point, so two such lists share their members.
proof fn lemma_adj_sorted_unique(a: GraphV, b: GraphV, p: int)
    requires
        graph_wf(a),
        graph_wf(b),
        a.lines == b.lines,
        a.points == b.points,
        0 <= p < a.points.len(),
    ensures
        a.outgoing[p] =~= b.outgoing[p],
{
    assert forall|v: u64| a.outgoing[p].contains(v) implies b.outgoing[p].contains(v) by {
        let k = choose|k: int| 0 <= k < a.outgoing[p].len() && a.outgoing[p][k] == v;
        assert(a.lines[v as int].from == p);
        assert(b.outgoing[(b.lines[v as int]).from as int].contains(v));
    }
    assert forall|v: u64| b.outgoing[p].contains(v) implies a.outgoing[p].contains(v) by {
        let k = choose|k: int| 0 <= k < b.outgoing[p].len() && b.outgoing[p][k] == v;
        assert(b.lines[v as int].from == p);
        assert(a.outgoing[(a.lines[v as int]).from as int].contains(v));
    }
    lemma_sorted_same_members(a.outgoing[p], b.outgoing[p]);
}

/// The incoming counterpart.
proof fn lemma_inc_sorted_unique(a: GraphV, b: GraphV, p: int)
    requires
        graph_wf(a),
        graph_wf(b),
        a.lines == b.lines,
        a.points == b.points,
        0 <= p < a.points.len(),
    ensures
        a.incoming[p] =~= b.incoming[p],
{
    assert forall|v: u64| a.incoming[p].contains(v) implies b.incoming[p].contains(v) by {
        let k = choose|k: int| 0 <= k < a.incoming[p].len() && a.incoming[p][k] == v;
        assert(a.lines[v as int].to == p);
        assert(b.incoming[(b.lines[v as int]).to as int].contains(v));
    }
    assert forall|v: u64| b.incoming[p].contains(v) implies a.incoming[p].contains(v) by {
        let k = choose|k: int| 0 <= k < b.incoming[p].len() && b.incoming[p][k] == v;
        assert(b.lines[v as int].to == p);
        assert(a.incoming[(a.lines[v as int]).to as int].contains(v));
    }
    lemma_sorted_same_members(a.incoming[p], b.incoming[p]);
}

} // verus!
