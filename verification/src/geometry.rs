use vstd::prelude::*;

verus! {

/// Whether a polyline through `n` points is drawn closed: only when asked and when it has
/// more than two points.
pub open spec fn closes(n: int, closed: bool) -> bool {
    closed && n > 2
}

/// Number of segments of a polyline through `n` points.
pub open spec fn segment_count(n: int, closed: bool) -> int {
    if closes(n, closed) {
        n
    } else {
        n - 1
    }
}

/// The six indices of segment `i`: the two triangles of the quad between the offset pair
/// of point `i` (vertices `2i`, `2i + 1`) and that of the next point.
pub open spec fn segment_indices(n: int, i: int) -> Seq<u32> {
    let a = 2 * i;
    let b = 2 * ((i + 1) % n);
    seq![a as u32, (a + 1) as u32, (b + 1) as u32, a as u32, (b + 1) as u32, b as u32]
}

/// The index list of a thick polyline through `n` points, segment after segment.
pub open spec fn polyline_index_seq(n: int, count: int) -> Seq<u32>
    decreases count,
{
    if count <= 0 {
        Seq::empty()
    } else {
        polyline_index_seq(n, count - 1) + segment_indices(n, count - 1)
    }
}

/// The triangles of a fan from the first point of a polygon: triangle `(0, i, i + 1)` for
/// each `i` whose flag `keep[i - 1]` says it is not degenerate.
pub open spec fn fan_index_seq(keep: Seq<bool>) -> Seq<u32>
    decreases keep.len(),
{
    if keep.len() == 0 {
        Seq::empty()
    } else {
        let i = keep.len() as int;
        fan_index_seq(keep.drop_last()) + if keep.last() {
            seq![0u32, i as u32, (i + 1) as u32]
        } else {
            Seq::empty()
        }
    }
}

/// The triangles of a closed fan around a center vertex 0 with `segments` rim vertices
/// `1..=segments`: triangle `(0, i, i % segments + 1)` for each `i` from 1, so the last
/// closes on the first rim vertex.
pub open spec fn circle_index_seq(segments: int, count: int) -> Seq<u32>
    decreases count,
{
    if count <= 0 {
        Seq::empty()
    } else {
        circle_index_seq(segments, count - 1) + seq![
            0u32,
            count as u32,
            (count % segments + 1) as u32,
        ]
    }
}

/// Indices of a filled circle: a fan from the center vertex 0 over `segments` rim vertices.
pub fn circle_indices(segments: usize) -> (indices: Vec<u32>)
    requires
        0 < segments < u32::MAX,
    ensures
        indices@ == circle_index_seq(segments as int, segments as int),
{
    let mut indices: Vec<u32> = Vec::new();
    let mut i: usize = 1;
    while i <= segments
        invariant
            1 <= i <= segments + 1,
            0 < segments < u32::MAX,
            indices@ == circle_index_seq(segments as int, i - 1),
        decreases segments + 1 - i,
    {
        indices.push(0);
        indices.push(i as u32);
        indices.push((i % segments + 1) as u32);
        assert(indices@ =~= circle_index_seq(segments as int, i - 1) + seq![
            0u32,
            i as u32,
            (i % segments + 1) as u32,
        ]);
        i = i + 1;
    }
    indices
}

/// Law: a circle fan has three indices per segment, each naming the center or a rim vertex.
pub proof fn lemma_circle_indices_in_range(segments: int, count: int)
    requires
        0 < segments < u32::MAX,
        0 <= count <= segments,
    ensures
        circle_index_seq(segments, count).len() == 3 * count,
        forall|k: int|
            0 <= k < circle_index_seq(segments, count).len() ==> #[trigger] circle_index_seq(
                segments,
                count,
            )[k] <= segments,
    decreases count,
{
    if count > 0 {
        lemma_circle_indices_in_range(segments, count - 1);
        let prev = circle_index_seq(segments, count - 1);
        assert forall|k: int|
            0 <= k < circle_index_seq(segments, count).len() implies #[trigger] circle_index_seq(
            segments,
            count,
        )[k] <= segments by {
            if k < prev.len() {
                assert(circle_index_seq(segments, count)[k] == prev[k]);
            }
        }
    }
}

/// Indices of the quads of a thick polyline through `point_count` points whose vertices are
/// laid out as one offset pair per point. No polyline is drawn through fewer than two
/// points, or through more than fit half the 32-bit index range.
pub fn polyline_indices(point_count: usize, closed: bool) -> (indices: Option<Vec<u32>>)
    ensures
        indices is None <==> (point_count < 2 || point_count > u32::MAX / 2),
        indices matches Some(v) ==> v@ == polyline_index_seq(
            point_count as int,
            segment_count(point_count as int, closed),
        ),
{
    if point_count < 2 || point_count > (u32::MAX / 2) as usize {
        return None;
    }
    let n = point_count;
    let count = if closed && n > 2 {
        n
    } else {
        n - 1
    };
    let mut indices: Vec<u32> = Vec::new();
    let mut i: usize = 0;
    while i < count
        invariant
            2 <= n <= u32::MAX / 2,
            count == segment_count(n as int, closed),
            i <= count,
            indices@ == polyline_index_seq(n as int, i as int),
        decreases count - i,
    {
        let a = (i * 2) as u32;
        let b = (((i + 1) % n) * 2) as u32;
        indices.push(a);
        indices.push(a + 1);
        indices.push(b + 1);
        indices.push(a);
        indices.push(b + 1);
        indices.push(b);
        i = i + 1;
        proof {
            assert(indices@ =~= polyline_index_seq(n as int, i - 1) + segment_indices(
                n as int,
                i - 1,
            ));
        }
    }
    Some(indices)
}

/// Indices of a triangle fan over a convex polygon of `keep.len() + 2` points, leaving out
/// the triangles flagged as degenerate.
pub fn fan_indices(keep: &[bool]) -> (indices: Vec<u32>)
    requires
        keep.len() + 2 <= u32::MAX,
    ensures
        indices@ == fan_index_seq(keep@),
{
    let mut indices: Vec<u32> = Vec::new();
    let mut i: usize = 1;
    while i <= keep.len()
        invariant
            1 <= i <= keep.len() + 1,
            keep.len() + 2 <= u32::MAX,
            indices@ == fan_index_seq(keep@.take(i - 1)),
        decreases keep.len() + 1 - i,
    {
        assert(keep@.take(i as int).drop_last() =~= keep@.take(i - 1));
        if keep[i - 1] {
            indices.push(0);
            indices.push(i as u32);
            indices.push(i as u32 + 1);
            assert(indices@ =~= fan_index_seq(keep@.take(i - 1)) + seq![
                0u32,
                i as u32,
                (i + 1) as u32,
            ]);
        } else {
            assert(indices@ =~= fan_index_seq(keep@.take(i - 1)) + Seq::<u32>::empty());
        }
        i = i + 1;
    }
    assert(keep@.take(keep.len() as int) =~= keep@);
    indices
}

/// Law: every index of a thick polyline names one of its `2n` vertices, and there are six
/// per segment.
pub proof fn lemma_polyline_indices_in_range(n: int, count: int)
    requires
        2 <= n <= u32::MAX / 2,
        0 <= count <= n,
    ensures
        polyline_index_seq(n, count).len() == 6 * count,
        forall|k: int|
            0 <= k < polyline_index_seq(n, count).len() ==> #[trigger] polyline_index_seq(
                n,
                count,
            )[k] < 2 * n,
    decreases count,
{
    if count > 0 {
        lemma_polyline_indices_in_range(n, count - 1);
        let prev = polyline_index_seq(n, count - 1);
        let seg = segment_indices(n, count - 1);
        assert forall|k: int|
            0 <= k < polyline_index_seq(n, count).len() implies #[trigger] polyline_index_seq(
            n,
            count,
        )[k] < 2 * n by {
            if k >= prev.len() {
                assert(polyline_index_seq(n, count)[k] == seg[k - prev.len()]);
            } else {
                assert(polyline_index_seq(n, count)[k] == prev[k]);
            }
        }
    }
}

/// Law: every fan index names one of the polygon's `keep.len() + 2` points, and each kept
/// triangle contributes three.
pub proof fn lemma_fan_indices_in_range(keep: Seq<bool>)
    requires
        keep.len() + 2 <= u32::MAX,
    ensures
        fan_index_seq(keep).len() % 3 == 0,
        fan_index_seq(keep).len() <= 3 * keep.len(),
        forall|k: int|
            0 <= k < fan_index_seq(keep).len() ==> #[trigger] fan_index_seq(keep)[k] < keep.len()
                + 2,
    decreases keep.len(),
{
    if keep.len() > 0 {
        lemma_fan_indices_in_range(keep.drop_last());
        let prev = fan_index_seq(keep.drop_last());
        assert forall|k: int|
            0 <= k < fan_index_seq(keep).len() implies #[trigger] fan_index_seq(keep)[k]
            < keep.len() + 2 by {
            if k < prev.len() {
                assert(fan_index_seq(keep)[k] == prev[k]);
            }
        }
    }
}

/// Index `k` of a thick polyline through `n` points: segment `k / 6` joins point `i` to the
/// point after it, the first one again after the last.
spec fn polyline_index_at(n: int, k: int) -> int {
    let i = k / 6;
    let next = if i + 1 < n {
        i + 1
    } else {
        0
    };
    if k % 6 == 0 || k % 6 == 3 {
        2 * i
    } else if k % 6 == 1 {
        2 * i + 1
    } else if k % 6 == 5 {
        2 * next
    } else {
        2 * next + 1
    }
}

proof fn lemma_polyline_prefix(n: int, count: int)
    requires
        2 <= n <= u32::MAX / 2,
        0 <= count <= n,
    ensures
        polyline_index_seq(n, count).len() == 6 * count,
        forall|k: int|
            0 <= k < 6 * count ==> #[trigger] polyline_index_seq(n, count)[k]
                == polyline_index_at(n, k),
    decreases count,
{
    if count > 0 {
        lemma_polyline_prefix(n, count - 1);
        let i = count - 1;
        let prev = polyline_index_seq(n, i);
        let seg = segment_indices(n, i);
        assert((i + 1) % n == if i + 1 < n {
            i + 1
        } else {
            0
        }) by (nonlinear_arith)
            requires
                0 <= i < n,
        ;
        assert forall|k: int| 0 <= k < 6 * count implies #[trigger] polyline_index_seq(n, count)[k]
            == polyline_index_at(n, k) by {
            if k < 6 * i {
                assert(polyline_index_seq(n, count)[k] == prev[k]);
            } else {
                assert(polyline_index_seq(n, count)[k] == seg[k - 6 * i]);
                assert(k / 6 == i && k % 6 == k - 6 * i);
            }
        }
    }
}

/// Law: a thick polyline through `n` points has one segment per pair of neighbouring
/// points, plus, when drawn closed with at least three points, one from the last point back
/// to the first; segment `i` is the quad `2i, 2i+1, 2j+1, 2i, 2j+1, 2j` where `j` is the
/// point after `i`. Two points are always drawn open.
pub proof fn lemma_polyline_segments(n: int, closed: bool)
    requires
        2 <= n <= u32::MAX / 2,
    ensures
        polyline_index_seq(n, segment_count(n, closed)).len() == 6 * (if closed && n >= 3 {
            n
        } else {
            n - 1
        }),
        forall|k: int|
            0 <= k < polyline_index_seq(n, segment_count(n, closed)).len() ==> #[trigger] polyline_index_seq(
                n,
                segment_count(n, closed),
            )[k] == {
                let i = k / 6;
                let next = if i + 1 < n {
                    i + 1
                } else {
                    0
                };
                if k % 6 == 0 || k % 6 == 3 {
                    2 * i
                } else if k % 6 == 1 {
                    2 * i + 1
                } else if k % 6 == 5 {
                    2 * next
                } else {
                    2 * next + 1
                }
            },
        closed && n >= 3 ==> polyline_index_seq(n, segment_count(n, closed)).subrange(
            6 * n - 6,
            6 * n,
        ) == seq![
            (2 * (n - 1)) as u32,
            (2 * (n - 1) + 1) as u32,
            1u32,
            (2 * (n - 1)) as u32,
            1u32,
            0u32,
        ],
{
    lemma_polyline_prefix(n, segment_count(n, closed));
    if closed && n >= 3 {
        let s = polyline_index_seq(n, n);
        assert(s[6 * n - 6] == polyline_index_at(n, 6 * n - 6));
        assert(s[6 * n - 5] == polyline_index_at(n, 6 * n - 5));
        assert(s[6 * n - 4] == polyline_index_at(n, 6 * n - 4));
        assert(s[6 * n - 3] == polyline_index_at(n, 6 * n - 3));
        assert(s[6 * n - 2] == polyline_index_at(n, 6 * n - 2));
        assert(s[6 * n - 1] == polyline_index_at(n, 6 * n - 1));
        assert(s.subrange(6 * n - 6, 6 * n) =~= seq![
            (2 * (n - 1)) as u32,
            (2 * (n - 1) + 1) as u32,
            1u32,
            (2 * (n - 1)) as u32,
            1u32,
            0u32,
        ]);
    }
}

/// Law: a circle fan over `segments` rim vertices has one triangle per rim vertex `i`
/// (from 1): the center 0, the vertex `i` and the next rim vertex, the first one again after
/// the last.
pub proof fn lemma_circle_triangles(segments: int)
    requires
        0 < segments < u32::MAX,
    ensures
        circle_index_seq(segments, segments).len() == 3 * segments,
        forall|k: int|
            0 <= k < 3 * segments ==> #[trigger] circle_index_seq(segments, segments)[k] == {
                let i = k / 3 + 1;
                if k % 3 == 0 {
                    0
                } else if k % 3 == 1 {
                    i
                } else if i < segments {
                    i + 1
                } else {
                    1
                }
            },
{
    lemma_circle_prefix(segments, segments);
}

proof fn lemma_circle_prefix(segments: int, count: int)
    requires
        0 < segments < u32::MAX,
        0 <= count <= segments,
    ensures
        circle_index_seq(segments, count).len() == 3 * count,
        forall|k: int|
            0 <= k < 3 * count ==> #[trigger] circle_index_seq(segments, count)[k] == {
                let i = k / 3 + 1;
                if k % 3 == 0 {
                    0
                } else if k % 3 == 1 {
                    i
                } else if i < segments {
                    i + 1
                } else {
                    1
                }
            },
    decreases count,
{
    if count > 0 {
        lemma_circle_prefix(segments, count - 1);
        let prev = circle_index_seq(segments, count - 1);
        assert(count % segments + 1 == if count < segments {
            count + 1
        } else {
            1
        }) by (nonlinear_arith)
            requires
                0 < count <= segments,
        ;
        assert forall|k: int| 0 <= k < 3 * count implies #[trigger] circle_index_seq(
            segments,
            count,
        )[k] == {
            let i = k / 3 + 1;
            if k % 3 == 0 {
                0
            } else if k % 3 == 1 {
                i
            } else if i < segments {
                i + 1
            } else {
                1
            }
        } by {
            if k < 3 * (count - 1) {
                assert(circle_index_seq(segments, count)[k] == prev[k]);
            } else {
                assert(k / 3 + 1 == count && k % 3 == k - 3 * (count - 1));
            }
        }
    }
}

/// Law: a polygon fan is the triangles `(0, i, i + 1)`, in increasing order of `i`, for
/// exactly the `i` from 1 to `keep.len()` whose flag `keep[i - 1]` is set, each once.
pub proof fn lemma_fan_triangles(keep: Seq<bool>)
    requires
        keep.len() + 2 <= u32::MAX,
    ensures
        fan_index_seq(keep).len() % 3 == 0,
        forall|k: int|
            0 <= k < fan_index_seq(keep).len() && k % 3 == 0 ==> #[trigger] fan_index_seq(keep)[k]
                == 0,
        forall|k: int|
            0 <= k < fan_index_seq(keep).len() && k % 3 == 1 ==> {
                &&& 1 <= #[trigger] fan_index_seq(keep)[k] <= keep.len()
                &&& keep[fan_index_seq(keep)[k] - 1]
                &&& fan_index_seq(keep)[k + 1] == fan_index_seq(keep)[k] + 1
            },
        forall|a: int, b: int|
            0 <= a < b < fan_index_seq(keep).len() && a % 3 == 1 && b % 3 == 1 ==> #[trigger] fan_index_seq(
                keep,
            )[a] < #[trigger] fan_index_seq(keep)[b],
        forall|i: int|
            1 <= i <= keep.len() && #[trigger] keep[i - 1] ==> exists|k: int|
                0 <= k < fan_index_seq(keep).len() && k % 3 == 1 && #[trigger] fan_index_seq(
                    keep,
                )[k] == i,
    decreases keep.len(),
{
    if keep.len() > 0 {
        let rest = keep.drop_last();
        lemma_fan_triangles(rest);
        lemma_fan_indices_in_range(rest);
        let n = keep.len() as int;
        let prev = fan_index_seq(rest);
        let s = fan_index_seq(keep);
        let t = prev.len() as int;
        assert forall|k: int| 0 <= k < t implies #[trigger] s[k] == prev[k] by {}
        if keep.last() {
            assert(s[t] == 0 && s[t + 1] == n && s[t + 2] == n + 1);
            assert(t % 3 == 0 && (t + 1) % 3 == 1 && (t + 2) % 3 == 2);
        }
        assert forall|k: int| 0 <= k < s.len() && k % 3 == 1 implies {
            &&& 1 <= #[trigger] s[k] <= keep.len()
            &&& keep[s[k] - 1]
            &&& s[k + 1] == s[k] + 1
        } by {
            if k < t {
                assert(rest[prev[k] - 1] == keep[prev[k] - 1]);
            }
        }
        assert forall|a: int, b: int|
            0 <= a < b < s.len() && a % 3 == 1 && b % 3 == 1 implies #[trigger] s[a]
            < #[trigger] s[b] by {
            if b < t {
                assert(prev[a] < prev[b]);
            } else {
                assert(prev[a] <= rest.len());
            }
        }
        assert forall|i: int| 1 <= i <= keep.len() && #[trigger] keep[i - 1] implies exists|k: int|
            0 <= k < s.len() && k % 3 == 1 && #[trigger] s[k] == i by {
            if i < n {
                assert(rest[i - 1] == keep[i - 1]);
                let k = choose|k: int| 0 <= k < prev.len() && k % 3 == 1 && #[trigger] prev[k] == i;
                assert(s[k] == i);
            } else {
                assert(s[t + 1] == i);
            }
        }
    }
}

} // verus!
