use vstd::prelude::*;

use crate::error::{Context, ErrorKind, WobjError};
use crate::faces::{shape_has_n, shape_has_t, Corner, Faces, Shape};
use crate::geometry::{Vector2, Vector3, VertexData};

verus! {

#[verifier::external_type_specification]
#[verifier::external_body]
#[verifier::reject_recursive_types(T)]
#[verifier::reject_recursive_types(S)]
pub struct ExIndexSet<T, S>(indexmap::IndexSet<T, S>);

#[verifier::external_type_specification]
#[verifier::external_body]
pub struct ExRandomState(ahash::RandomState);

/// The set of distinct corners met so far, in first-seen order.
pub type CornerSet = indexmap::IndexSet<Corner, ahash::RandomState>;

/// The items of a corner set, in insertion order.
pub uninterp spec fn set_items(s: CornerSet) -> Seq<Corner>;

/// Relies on `IndexSet`'s `Default` (whose hasher is `ahash::RandomState`'s
/// default): the new set is empty.
#[verifier::external_body]
fn new_corner_set() -> (r: CornerSet)
    ensures
        set_items(r) == Seq::<Corner>::empty(),
{
    indexmap::IndexSet::default()
}

/// Relies on `IndexSet::insert_full`: an item already present keeps its
/// index and leaves the set as it was; a new item is appended and gets the
/// next index.
#[verifier::external_body]
fn insert_corner(set: &mut CornerSet, c: Corner) -> (r: (usize, bool))
    ensures
        set_items(*old(set)).contains(c) ==> set_items(*final(set)) == set_items(*old(set))
            && r.0 < set_items(*old(set)).len() && set_items(*old(set))[r.0 as int] == c && !r.1,
        !set_items(*old(set)).contains(c) ==> set_items(*final(set)) == set_items(*old(set)).push(
            c,
        ) && r.0 == set_items(*old(set)).len() && r.1,
{
    set.insert_full(c)
}

/// Relies on `IndexSet::len`: the number of items.
#[verifier::external_body]
fn corner_count(set: &CornerSet) -> (r: usize)
    ensures
        r == set_items(*set).len(),
{
    set.len()
}

/// Relies on `IndexSet::get_index`: the item at an index, in insertion
/// order.
#[verifier::external_body]
fn corner_at(set: &CornerSet, i: usize) -> (r: Option<Corner>)
    ensures
        i < set_items(*set).len() ==> r == Some(set_items(*set)[i as int]),
        i >= set_items(*set).len() ==> r is None,
{
    set.get_index(i).copied()
}

/// The corners of the fan of the first `m + 1` points of a polygon: the
/// triangles `(p[0], p[i - 1], p[i])` for `i` in `2..=m`.
pub open spec fn fan_upto(poly: Seq<Corner>, m: int) -> Seq<Corner>
    decreases m,
{
    if m < 2 {
        Seq::empty()
    } else {
        fan_upto(poly, m - 1) + seq![poly[0], poly[m - 1], poly[m]]
    }
}

/// The corners of the fan triangulation of a polygon, three per triangle.
pub open spec fn fan(poly: Seq<Corner>) -> Seq<Corner> {
    fan_upto(poly, poly.len() - 1)
}

/// The corners of the fans of all polygons, in order.
pub open spec fn fan_all(polys: Seq<Seq<Corner>>) -> Seq<Corner>
    decreases polys.len(),
{
    if polys.len() == 0 {
        Seq::empty()
    } else {
        fan_all(polys.drop_last()) + fan(polys.last())
    }
}

/// The distinct items of `s`, each once, in order of first appearance.
pub open spec fn distinct_in_order(s: Seq<Corner>) -> Seq<Corner>
    decreases s.len(),
{
    if s.len() == 0 {
        Seq::empty()
    } else {
        let d = distinct_in_order(s.drop_last());
        if d.contains(s.last()) {
            d
        } else {
            d.push(s.last())
        }
    }
}

/// `buffer` gives, for each corner, a slot of `points` that holds it.
pub open spec fn indexes(buffer: Seq<usize>, corners: Seq<Corner>, points: Seq<Corner>) -> bool {
    &&& buffer.len() == corners.len()
    &&& forall|k: int|
        0 <= k < buffer.len() ==> (#[trigger] buffer[k]) < points.len() && points[buffer[k] as int]
            == corners[k]
}

/// The first lookup that fails when the distinct points are turned into
/// vertices, from slot `k` on: a position, then a normal, then a texture
/// coordinate, each where the shape has it.
pub open spec fn first_bad_lookup(
    points: Seq<Corner>,
    shape: Shape,
    data: VertexData,
    k: int,
) -> Option<Context>
    decreases points.len() - k,
{
    if k < 0 || k >= points.len() {
        None
    } else if points[k].0 >= data.vertex@.len() {
        Some(Context::VertexLookup)
    } else if shape_has_n(shape) && points[k].2 >= data.normal@.len() {
        Some(Context::NormalLookup)
    } else if shape_has_t(shape) && points[k].1 >= data.texture@.len() {
        Some(Context::UvLookup)
    } else {
        first_bad_lookup(points, shape, data, k + 1)
    }
}

proof fn lemma_fan_upto_len(poly: Seq<Corner>, m: int)
    ensures
        fan_upto(poly, m).len() == if m < 2 {
            0
        } else {
            3 * (m - 1)
        },
    decreases m,
{
    if m >= 2 {
        lemma_fan_upto_len(poly, m - 1);
    }
}

proof fn lemma_distinct_in_order(s: Seq<Corner>)
    ensures
        distinct_in_order(s).no_duplicates(),
        forall|c: Corner| #[trigger] distinct_in_order(s).contains(c) <==> s.contains(c),
    decreases s.len(),
{
    if s.len() > 0 {
        let t = s.drop_last();
        let x = s.last();
        let d = distinct_in_order(t);
        lemma_distinct_in_order(t);
        assert forall|c: Corner| #[trigger] s.contains(c) <==> t.contains(c) || c == x by {
            if s.contains(c) {
                let k = choose|k: int| 0 <= k < s.len() && s[k] == c;
                if k < s.len() - 1 {
                    assert(t[k] == c);
                }
            }
            if t.contains(c) {
                let k = choose|k: int| 0 <= k < t.len() && t[k] == c;
                assert(s[k] == c);
            }
            if c == x {
                assert(s[s.len() - 1] == c);
            }
        }
        if !d.contains(x) {
            let e = d.push(x);
            assert forall|c: Corner| #[trigger] e.contains(c) <==> d.contains(c) || c == x by {
                if e.contains(c) {
                    let k = choose|k: int| 0 <= k < e.len() && e[k] == c;
                    if k < d.len() {
                        assert(d[k] == c);
                    }
                }
                if d.contains(c) {
                    let k = choose|k: int| 0 <= k < d.len() && d[k] == c;
                    assert(e[k] == c);
                }
                if c == x {
                    assert(e[d.len() as int] == c);
                }
            }
            assert forall|i: int, j: int|
                0 <= i < e.len() && 0 <= j < e.len() && i != j implies e[i] != e[j] by {
                if i < d.len() && j < d.len() {
                } else if i < d.len() {
                    assert(d.contains(e[i]));
                } else if j < d.len() {
                    assert(d.contains(e[j]));
                }
            }
        }
    }
}

/// The corners of the fan triangulation of all polygons.
pub fn fan_corners(faces: &Faces) -> (r: Vec<Corner>)
    ensures
        r@ == fan_all(faces.polygons()),
{
    let ghost polys = faces.polygons();
    let count = faces.len();
    let mut out: Vec<Corner> = Vec::new();
    let mut i: usize = 0;
    while i < count
        invariant
            polys == faces.polygons(),
            count == polys.len(),
            0 <= i <= count,
            out@ == fan_all(polys.subrange(0, i as int)),
        decreases count - i,
    {
        let n = faces.polygon_len(i);
        let ghost poly = polys[i as int];
        let ghost start = out@;
        let mut j: usize = 2;
        while j < n
            invariant
                polys == faces.polygons(),
                i < count == polys.len(),
                poly == polys[i as int],
                n == poly.len(),
                2 <= j,
                j <= n || n < 2,
                n < 2 ==> j == 2,
                out@ == start + fan_upto(poly, j - 1),
            decreases n - j,
        {
            let a = faces.corner(i, 0);
            let b = faces.corner(i, j - 1);
            let c = faces.corner(i, j);
            out.push(a);
            out.push(b);
            out.push(c);
            assert(fan_upto(poly, j as int) == fan_upto(poly, j - 1) + seq![a, b, c]);
            assert(out@ =~= start + fan_upto(poly, j as int));
            j = j + 1;
        }
        assert(fan_upto(poly, j - 1) == fan(poly)) by {
            if n >= 2 {
                assert(j == n);
            } else {
                assert(fan_upto(poly, j - 1) == Seq::<Corner>::empty());
                assert(fan(poly) == Seq::<Corner>::empty());
            }
        }
        assert(polys.subrange(0, i + 1).drop_last() =~= polys.subrange(0, i as int));
        assert(polys.subrange(0, i + 1).last() == poly);
        i = i + 1;
    }
    assert(polys.subrange(0, count as int) =~= polys);
    out
}

/// Gives each corner the slot of its first appearance among the distinct
/// corners, collecting the distinct corners in a set.
pub fn dedup_corners(corners: &Vec<Corner>) -> (r: (Vec<usize>, CornerSet))
    ensures
        set_items(r.1) == distinct_in_order(corners@),
        indexes(r.0@, corners@, set_items(r.1)),
{
    let mut set = new_corner_set();
    let mut buffer: Vec<usize> = Vec::new();
    let mut k: usize = 0;
    while k < corners.len()
        invariant
            0 <= k <= corners@.len(),
            set_items(set) == distinct_in_order(corners@.subrange(0, k as int)),
            indexes(buffer@, corners@.subrange(0, k as int), set_items(set)),
        decreases corners@.len() - k,
    {
        let c = corners[k];
        let ghost before = set_items(set);
        let ghost prefix = corners@.subrange(0, k + 1);
        assert(prefix.drop_last() =~= corners@.subrange(0, k as int));
        let (slot, _) = insert_corner(&mut set, c);
        assert(set_items(set) == distinct_in_order(prefix));
        assert(before.is_prefix_of(set_items(set)));
        buffer.push(slot);
        assert forall|j: int| 0 <= j < buffer@.len() implies (#[trigger] buffer@[j]) < set_items(
            set,
        ).len() && set_items(set)[buffer@[j] as int] == prefix[j] by {
            if j < k {
                assert(prefix[j] == corners@.subrange(0, k as int)[j]);
            }
        }
        k = k + 1;
    }
    assert(corners@.subrange(0, corners@.len() as int) =~= corners@);
    (buffer, set)
}

/// Triangulated mesh indices: three slots of the vertex arrays per triangle.
#[derive(Debug, Clone, PartialEq, Eq)]
pub struct Indicies(pub Vec<usize>);

/// Triangulated mesh vertices, one per distinct corner. Normals and texture
/// coordinates are present exactly when the faces carry them.
#[derive(Debug, Clone, PartialEq, Eq)]
pub struct Vertices {
    /// Vertex positions
    pub positions: Vec<Vector3>,
    /// Vertex normals
    pub normals: Option<Vec<Vector3>>,
    /// Vertex UVs
    pub uvs: Option<Vec<Vector2>>,
}

/// The vertex arrays for the distinct corners `points`: the position of
/// each, and its normal and texture coordinate where the shape has them.
pub open spec fn vertices_match(
    v: Vertices,
    points: Seq<Corner>,
    shape: Shape,
    data: VertexData,
) -> bool {
    &&& v.positions@.len() == points.len()
    &&& forall|k: int|
        0 <= k < points.len() ==> (#[trigger] v.positions@[k])@ == data.vertex@[points[k].0 as int]@
    &&& (v.normals is Some) == shape_has_n(shape)
    &&& (v.uvs is Some) == shape_has_t(shape)
    &&& v.normals matches Some(ns) ==> ns@.len() == points.len() && forall|k: int|
        0 <= k < points.len() ==> (#[trigger] ns@[k])@ == data.normal@[points[k].2 as int]@
    &&& v.uvs matches Some(ts) ==> ts@.len() == points.len() && forall|k: int|
        0 <= k < points.len() ==> (#[trigger] ts@[k])@ == data.texture@[points[k].1 as int]@
}

/// Looks up the vertices of the distinct corners.
fn build_vertices(set: &CornerSet, shape: Shape, data: &VertexData) -> (r: Result<
    Vertices,
    Context,
>)
    ensures
        r matches Ok(v) ==> vertices_match(v, set_items(*set), shape, *data),
        r matches Ok(_) <==> first_bad_lookup(set_items(*set), shape, *data, 0) is None,
        r matches Err(c) ==> first_bad_lookup(set_items(*set), shape, *data, 0) == Some(c),
{
    let ghost points = set_items(*set);
    let count = corner_count(set);
    let has_n = match shape {
        Shape::VN | Shape::VTN => true,
        _ => false,
    };
    let has_t = match shape {
        Shape::VT | Shape::VTN => true,
        _ => false,
    };
    let mut positions: Vec<Vector3> = Vec::new();
    let mut normals: Vec<Vector3> = Vec::new();
    let mut uvs: Vec<Vector2> = Vec::new();
    let mut k: usize = 0;
    while k < count
        invariant
            points == set_items(*set),
            count == points.len(),
            has_n == shape_has_n(shape),
            has_t == shape_has_t(shape),
            0 <= k <= count,
            first_bad_lookup(points, shape, *data, 0) == first_bad_lookup(
                points,
                shape,
                *data,
                k as int,
            ),
            positions@.len() == k,
            forall|j: int|
                0 <= j < k ==> (#[trigger] positions@[j])@ == data.vertex@[points[j].0 as int]@,
            has_n ==> normals@.len() == k,
            has_n ==> forall|j: int|
                0 <= j < k ==> (#[trigger] normals@[j])@ == data.normal@[points[j].2 as int]@,
            has_t ==> uvs@.len() == k,
            has_t ==> forall|j: int|
                0 <= j < k ==> (#[trigger] uvs@[j])@ == data.texture@[points[j].1 as int]@,
        decreases count - k,
    {
        let c = match corner_at(set, k) {
            Some(c) => c,
            None => {
                return Err(Context::VertexLookup);
            },
        };
        if c.0 >= data.vertex.len() {
            return Err(Context::VertexLookup);
        }
        if has_n && c.2 >= data.normal.len() {
            return Err(Context::NormalLookup);
        }
        if has_t && c.1 >= data.texture.len() {
            return Err(Context::UvLookup);
        }
        positions.push(data.vertex[c.0].duplicate());
        if has_n {
            normals.push(data.normal[c.2].duplicate());
        }
        if has_t {
            uvs.push(data.texture[c.1].duplicate());
        }
        k = k + 1;
    }
    let v = Vertices {
        positions,
        normals: if has_n {
            Some(normals)
        } else {
            None
        },
        uvs: if has_t {
            Some(uvs)
        } else {
            None
        },
    };
    Ok(v)
}

/// Triangulates polygons into an index buffer and deduplicated vertex
/// arrays. Every polygon becomes the fan `(p[0], p[i - 1], p[i])` for `i` in
/// `2..n`; each distinct corner gets one slot, in order of first appearance.
pub fn triangulate_faces(faces: &Faces, data: &VertexData) -> (r: Result<
    (Indicies, Vertices),
    WobjError,
>)
    ensures
        r matches Ok((ind, v)) ==> indexes(
            ind.0@,
            fan_all(faces.polygons()),
            distinct_in_order(fan_all(faces.polygons())),
        ) && vertices_match(v, distinct_in_order(fan_all(faces.polygons())), faces.shape(), *data),
        r is Ok <==> first_bad_lookup(
            distinct_in_order(fan_all(faces.polygons())),
            faces.shape(),
            *data,
            0,
        ) is None,
        r matches Err(e) ==> e.kind == ErrorKind::IndexOutOfRange && e.offset == 0 && e.detail
            is None && Some(
            e.context,
        ) == first_bad_lookup(
            distinct_in_order(fan_all(faces.polygons())),
            faces.shape(),
            *data,
            0,
        ),
{
    let corners = fan_corners(faces);
    let (buffer, set) = dedup_corners(&corners);
    match build_vertices(&set, faces.kind(), data) {
        Ok(v) => Ok((Indicies(buffer), v)),
        Err(c) => Err(WobjError::new(ErrorKind::IndexOutOfRange, c, 0)),
    }
}

} // verus!

verus! {

proof fn lemma_fan_upto(poly: Seq<Corner>, m: int)
    requires
        m < poly.len(),
    ensures
        m >= 2 ==> fan_upto(poly, m).len() == 3 * (m - 1),
        forall|t: int|
            0 <= t < m - 1 ==> #[trigger] fan_upto(poly, m)[3 * t] == poly[0] && fan_upto(poly, m)[3
                * t + 1] == poly[t + 1] && fan_upto(poly, m)[3 * t + 2] == poly[t + 2],
    decreases m,
{
    lemma_fan_upto_len(poly, m);
    if m >= 2 {
        lemma_fan_upto(poly, m - 1);
        lemma_fan_upto_len(poly, m - 1);
        let f = fan_upto(poly, m - 1);
        assert forall|t: int| 0 <= t < m - 1 implies #[trigger] fan_upto(poly, m)[3 * t] == poly[0]
            && fan_upto(poly, m)[3 * t + 1] == poly[t + 1] && fan_upto(poly, m)[3 * t + 2] == poly[t
            + 2] by {
            let g = fan_upto(poly, m);
            let tail = seq![poly[0], poly[m - 1], poly[m]];
            assert(g == f + tail);
            if t < m - 2 {
                assert(f[3 * t] == poly[0]);
                assert(g[3 * t] == f[3 * t]);
                assert(g[3 * t + 1] == f[3 * t + 1]);
                assert(g[3 * t + 2] == f[3 * t + 2]);
            } else {
                assert(3 * t == f.len());
                assert(g[3 * t] == tail[0]);
                assert(g[3 * t + 1] == tail[1]);
                assert(g[3 * t + 2] == tail[2]);
            }
        }
    }
}

/// Fan triangulation: a polygon of `n >= 3` points gives `n - 2` triangles,
/// triangle `t` being `(p[0], p[t + 1], p[t + 2])`, so each shares point 0.
pub proof fn fan_triangles(poly: Seq<Corner>)
    requires
        poly.len() >= 3,
    ensures
        fan(poly).len() == 3 * (poly.len() - 2),
        forall|t: int|
            0 <= t < poly.len() - 2 ==> #[trigger] fan(poly)[3 * t] == poly[0] && fan(poly)[3 * t + 1]
                == poly[t + 1] && fan(poly)[3 * t + 2] == poly[t + 2],
{
    lemma_fan_upto(poly, poly.len() - 1);
}

/// Deduplication: corners that are equal get the same slot, and no corner
/// appears twice among the distinct corners that the vertex arrays are
/// built from.
pub proof fn shared_corner_shares_slot(buffer: Seq<usize>, corners: Seq<Corner>, a: int, b: int)
    requires
        indexes(buffer, corners, distinct_in_order(corners)),
        0 <= a < corners.len(),
        0 <= b < corners.len(),
        corners[a] == corners[b],
    ensures
        buffer[a] == buffer[b],
        distinct_in_order(corners).no_duplicates(),
{
    lemma_distinct_in_order(corners);
    let d = distinct_in_order(corners);
    assert(d[buffer[a] as int] == d[buffer[b] as int]);
}

/// Determinism of triangulation: two index buffers and two sets of vertex
/// arrays that both meet the triangulation contract for the same corners,
/// shape and attribute arrays are equal, slot for slot.
pub proof fn triangulation_deterministic(
    corners: Seq<Corner>,
    shape: Shape,
    data: VertexData,
    b1: Seq<usize>,
    b2: Seq<usize>,
    v1: Vertices,
    v2: Vertices,
)
    requires
        indexes(b1, corners, distinct_in_order(corners)),
        indexes(b2, corners, distinct_in_order(corners)),
        vertices_match(v1, distinct_in_order(corners), shape, data),
        vertices_match(v2, distinct_in_order(corners), shape, data),
    ensures
        b1 == b2,
        v1.positions@.map_values(|p: Vector3| p@) == v2.positions@.map_values(|p: Vector3| p@),
        v1.normals is Some == v2.normals is Some,
        v1.normals matches Some(n1) ==> v2.normals matches Some(n2) && n1@.map_values(
            |p: Vector3| p@,
        ) == n2@.map_values(|p: Vector3| p@),
        v1.uvs is Some == v2.uvs is Some,
        v1.uvs matches Some(t1) ==> v2.uvs matches Some(t2) && t1@.map_values(|p: Vector2| p@)
            == t2@.map_values(|p: Vector2| p@),
{
    lemma_distinct_in_order(corners);
    let d = distinct_in_order(corners);
    assert forall|k: int| 0 <= k < b1.len() implies b1[k] == b2[k] by {
        assert(d[b1[k] as int] == d[b2[k] as int]);
    }
    assert(b1 =~= b2);
    assert(v1.positions@.map_values(|p: Vector3| p@) =~= v2.positions@.map_values(|p: Vector3| p@));
    if let Some(n1) = v1.normals {
        let n2 = v2.normals->Some_0;
        assert(n1@.map_values(|p: Vector3| p@) =~= n2@.map_values(|p: Vector3| p@));
    }
    if let Some(t1) = v1.uvs {
        let t2 = v2.uvs->Some_0;
        assert(t1@.map_values(|p: Vector2| p@) =~= t2@.map_values(|p: Vector2| p@));
    }
}

} // verus!

verus! {

/// Where the fan of polygon `i` starts among the corners of all fans.
pub open spec fn fan_start(polys: Seq<Seq<Corner>>, i: int) -> int {
    fan_all(polys.subrange(0, i)).len() as int
}

proof fn lemma_fan_all_split(polys: Seq<Seq<Corner>>, i: int)
    requires
        0 <= i < polys.len(),
    ensures
        fan_start(polys, i) + fan(polys[i]).len() <= fan_all(polys).len(),
        forall|k: int|
            0 <= k < fan(polys[i]).len() ==> #[trigger] fan_all(polys)[fan_start(polys, i) + k]
                == fan(polys[i])[k],
    decreases polys.len(),
{
    let d = polys.drop_last();
    assert(polys.subrange(0, i) =~= d.subrange(0, i));
    if i == polys.len() - 1 {
        assert(d =~= polys.subrange(0, i));
    } else {
        lemma_fan_all_split(d, i);
        assert(d[i] == polys[i]);
        assert forall|k: int| 0 <= k < fan(polys[i]).len() implies #[trigger] fan_all(polys)[fan_start(
            polys,
            i,
        ) + k] == fan(polys[i])[k] by {
            assert(fan_all(d)[fan_start(d, i) + k] == fan(d[i])[k]);
        }
    }
}

/// Fan triangulation, in the index buffer: for polygon `i` of `n >= 3`
/// points, its `n - 2` triangles stand together in the buffer, in polygon
/// order, and triangle `t` refers to the corners `p[0]`, `p[t + 1]` and
/// `p[t + 2]`, so every one of them is anchored at point 0.
pub proof fn triangles_share_anchor(polys: Seq<Seq<Corner>>, buffer: Seq<usize>, i: int, t: int)
    requires
        indexes(buffer, fan_all(polys), distinct_in_order(fan_all(polys))),
        0 <= i < polys.len(),
        polys[i].len() >= 3,
        0 <= t < polys[i].len() - 2,
    ensures
        fan_start(polys, i) + 3 * (polys[i].len() - 2) <= buffer.len(),
        distinct_in_order(fan_all(polys))[buffer[fan_start(polys, i) + 3 * t] as int]
            == polys[i][0],
        distinct_in_order(fan_all(polys))[buffer[fan_start(polys, i) + 3 * t + 1] as int]
            == polys[i][t + 1],
        distinct_in_order(fan_all(polys))[buffer[fan_start(polys, i) + 3 * t + 2] as int]
            == polys[i][t + 2],
{
    lemma_fan_all_split(polys, i);
    fan_triangles(polys[i]);
    let b = fan_start(polys, i);
    let k0 = 3 * t;
    let k1 = 3 * t + 1;
    let k2 = 3 * t + 2;
    assert(fan(polys[i])[3 * t] == polys[i][0]);
    assert(fan_all(polys)[b + k0] == fan(polys[i])[k0]);
    assert(fan_all(polys)[b + k1] == fan(polys[i])[k1]);
    assert(fan_all(polys)[b + k2] == fan(polys[i])[k2]);
}

proof fn lemma_fan_upto_points(poly: Seq<Corner>, m: int, c: Corner)
    requires
        m < poly.len(),
        fan_upto(poly, m).contains(c),
    ensures
        exists|j: int| 0 <= j < poly.len() && poly[j] == c,
    decreases m,
{
    if m >= 2 {
        let f = fan_upto(poly, m - 1);
        let tail = seq![poly[0], poly[m - 1], poly[m]];
        assert(fan_upto(poly, m) == f + tail);
        let k = choose|k: int| 0 <= k < fan_upto(poly, m).len() && fan_upto(poly, m)[k] == c;
        if k < f.len() {
            assert(f[k] == c);
            lemma_fan_upto_points(poly, m - 1, c);
        } else if k == f.len() {
            assert(poly[0] == c);
        } else if k == f.len() + 1 {
            assert(poly[m - 1] == c);
        } else {
            assert(poly[m] == c);
        }
    }
}

proof fn lemma_fan_all_points(polys: Seq<Seq<Corner>>, c: Corner)
    requires
        fan_all(polys).contains(c),
    ensures
        exists|i: int, j: int| 0 <= i < polys.len() && 0 <= j < polys[i].len() && polys[i][j] == c,
    decreases polys.len(),
{
    let d = polys.drop_last();
    let k = choose|k: int| 0 <= k < fan_all(polys).len() && fan_all(polys)[k] == c;
    if k < fan_all(d).len() {
        assert(fan_all(d)[k] == c);
        lemma_fan_all_points(d, c);
        let (i, j) = choose|i: int, j: int|
            0 <= i < d.len() && 0 <= j < d[i].len() && d[i][j] == c;
        assert(polys[i][j] == c);
    } else {
        let l = polys.last();
        assert(fan(l)[k - fan_all(d).len()] == c);
        lemma_fan_upto_points(l, l.len() - 1, c);
        let j = choose|j: int| 0 <= j < l.len() && l[j] == c;
        assert(polys[polys.len() - 1][j] == c);
    }
}

proof fn lemma_polygon_points_in_fans(polys: Seq<Seq<Corner>>, i: int, j: int)
    requires
        forall|k: int| 0 <= k < polys.len() ==> (#[trigger] polys[k]).len() >= 3,
        0 <= i < polys.len(),
        0 <= j < polys[i].len(),
    ensures
        fan_all(polys).contains(polys[i][j]),
{
    let n = polys[i].len();
    assert(polys[i].len() >= 3);
    lemma_fan_all_split(polys, i);
    fan_triangles(polys[i]);
    let b = fan_start(polys, i);
    let k = if j == 0 {
        let t = 0int;
        assert(fan(polys[i])[3 * t] == polys[i][0]);
        3 * t
    } else if j <= n - 2 {
        let t = j - 1;
        assert(fan(polys[i])[3 * t] == polys[i][0]);
        3 * t + 1
    } else {
        let t = n - 3;
        assert(fan(polys[i])[3 * t] == polys[i][0]);
        3 * t + 2
    };
    assert(fan(polys[i])[k] == polys[i][j]);
    assert(fan_all(polys)[b + k] == polys[i][j]);
}

/// Deduplication, counted: where every polygon has at least three points,
/// the vertex arrays hold exactly one vertex per distinct point of the
/// polygons (the tuples that the triangles use are exactly those points),
/// and no point is stored twice.
pub proof fn one_vertex_per_distinct_point(
    polys: Seq<Seq<Corner>>,
    shape: Shape,
    data: VertexData,
    v: Vertices,
)
    requires
        forall|k: int| 0 <= k < polys.len() ==> (#[trigger] polys[k]).len() >= 3,
        vertices_match(v, distinct_in_order(fan_all(polys)), shape, data),
    ensures
        distinct_in_order(fan_all(polys)).no_duplicates(),
        forall|c: Corner|
            #[trigger] fan_all(polys).contains(c) <==> exists|i: int, j: int|
                0 <= i < polys.len() && 0 <= j < polys[i].len() && polys[i][j] == c,
        v.positions@.len() == fan_all(polys).to_set().len(),
{
    let corners = fan_all(polys);
    let d = distinct_in_order(corners);
    lemma_distinct_in_order(corners);
    assert forall|c: Corner| #[trigger] corners.contains(c) <==> exists|i: int, j: int|
        0 <= i < polys.len() && 0 <= j < polys[i].len() && polys[i][j] == c by {
        if corners.contains(c) {
            lemma_fan_all_points(polys, c);
        }
        if exists|i: int, j: int| 0 <= i < polys.len() && 0 <= j < polys[i].len() && polys[i][j] == c {
            let (i, j) = choose|i: int, j: int|
                0 <= i < polys.len() && 0 <= j < polys[i].len() && polys[i][j] == c;
            lemma_polygon_points_in_fans(polys, i, j);
        }
    }
    d.unique_seq_to_set();
    assert(d.to_set() =~= corners.to_set());
}

} // verus!
