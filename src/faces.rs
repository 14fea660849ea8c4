use vstd::prelude::*;

use crate::error::{Context, ErrorKind};
use crate::text::{at, byte_is, digits_end, digits_value, is_eol, scan_decimal, scan_spaces, spaces_end};

verus! {

/// A polygon corner: position, texture-coordinate and normal offsets. An
/// offset that the face shape lacks is 0.
pub type Corner = (usize, usize, usize);

/// Which attributes the points of a submesh's faces carry.
#[derive(Debug, Clone, Copy, PartialEq, Eq, Structural)]
pub enum Shape {
    /// `v`
    V,
    /// `v/t`
    VT,
    /// `v//n`
    VN,
    /// `v/t/n`
    VTN,
}

pub open spec fn shape_of(has_t: bool, has_n: bool) -> Shape {
    if has_t && has_n {
        Shape::VTN
    } else if has_t {
        Shape::VT
    } else if has_n {
        Shape::VN
    } else {
        Shape::V
    }
}

pub open spec fn shape_has_t(shape: Shape) -> bool {
    shape == Shape::VT || shape == Shape::VTN
}

pub open spec fn shape_has_n(shape: Shape) -> bool {
    shape == Shape::VN || shape == Shape::VTN
}

/// A corner fits a shape when the offsets the shape lacks are 0.
pub open spec fn fits(shape: Shape, c: Corner) -> bool {
    (!shape_has_t(shape) ==> c.1 == 0) && (!shape_has_n(shape) ==> c.2 == 0)
}

/// A face point as written: signed indices, a texture and a normal index
/// where present.
#[derive(Debug, Clone, Copy, PartialEq, Eq, Structural)]
pub struct RawPoint {
    pub v: i64,
    pub t: Option<i64>,
    pub n: Option<i64>,
}

/// Every index of the point is usable.
pub open spec fn point_ok(pt: RawPoint) -> bool {
    index_ok(pt.v as int) && (pt.t matches Some(i) ==> index_ok(i as int)) && (pt.n matches Some(
        i,
    ) ==> index_ok(i as int))
}

impl RawPoint {
    pub open spec fn shape(self) -> Shape {
        shape_of(self.t is Some, self.n is Some)
    }
}

/// A usable index: non-zero, with a magnitude that fits both `i64` and
/// `usize`.
pub open spec fn index_ok(i: int) -> bool {
    i != 0 && -i64::MAX <= i <= i64::MAX && -usize::MAX <= i <= usize::MAX
}

/// The signed, non-zero integer at `p` (an optional `+` or `-`, then
/// digits whose value is at most `i64::MAX` and `usize::MAX`), with its end.
pub open spec fn index_at(s: Seq<u8>, p: int) -> Option<(i64, int)> {
    let neg = at(s, p, 45);
    let a = if at(s, p, 43) || neg {
        p + 1
    } else {
        p
    };
    let e = digits_end(s, a);
    let m = digits_value(s, a, e);
    if e > a && 0 < m <= i64::MAX && m <= usize::MAX {
        Some(
            (
                (if neg {
                    -m
                } else {
                    m
                }) as i64,
                e,
            ),
        )
    } else {
        None
    }
}

pub open spec fn at_line_end(s: Seq<u8>, q: int) -> bool {
    q >= s.len() || is_eol(s[q])
}

/// The face point `v`, `v/t`, `v//n` or `v/t/n` at `p`, with its end.
/// Every `/` must be followed by an index; where one is missing or invalid,
/// the result names it.
pub open spec fn point_at(s: Seq<u8>, p: int) -> Result<(RawPoint, int), Context> {
    match index_at(s, p) {
        None => Err(Context::VertexIndex),
        Some((v, e1)) => if at(s, e1, 47) && at(s, e1 + 1, 47) {
            match index_at(s, e1 + 2) {
                Some((n, e)) => Ok((RawPoint { v, t: None, n: Some(n) }, e)),
                None => Err(Context::NormalIndex),
            }
        } else if at(s, e1, 47) {
            match index_at(s, e1 + 1) {
                None => Err(Context::TextureIndex),
                Some((t, e2)) => if at(s, e2, 47) {
                    match index_at(s, e2 + 1) {
                        Some((n, e)) => Ok((RawPoint { v, t: Some(t), n: Some(n) }, e)),
                        None => Err(Context::NormalIndex),
                    }
                } else {
                    Ok((RawPoint { v, t: Some(t), n: None }, e2))
                },
            }
        } else {
            Ok((RawPoint { v, t: None, n: None }, e1))
        },
    }
}

/// The points from `p` on, separated by spaces, up to the end of the line
/// (spaces may come before it), with that end. Anything else after a point
/// is an error.
pub open spec fn points_from(s: Seq<u8>, p: int) -> Result<(Seq<RawPoint>, int), Context>
    decreases s.len() - p,
{
    match point_at(s, p) {
        Err(c) => Err(c),
        Ok((pt, e)) => {
            let f = spaces_end(s, e);
            if at_line_end(s, f) {
                Ok((seq![pt], f))
            } else if p < e < f <= s.len() {
                prefixed(seq![pt], points_from(s, f))
            } else {
                Err(Context::FacePoint)
            }
        },
    }
}

/// `pts` put in front of the points of `r`, where `r` succeeded.
pub open spec fn prefixed(pts: Seq<RawPoint>, r: Result<(Seq<RawPoint>, int), Context>) -> Result<
    (Seq<RawPoint>, int),
    Context,
> {
    match r {
        Err(c) => Err(c),
        Ok((rest, end)) => Ok((pts + rest, end)),
    }
}

pub open spec fn same_shape(pts: Seq<RawPoint>) -> bool {
    forall|k: int| 0 <= k < pts.len() ==> (#[trigger] pts[k]).shape() == pts[0].shape()
}

/// The point list of a face statement from `p` on: at least three points of
/// one shape, running to the end of the line, with that end. A failure
/// gives its kind and, for an invalid index, which index it was.
pub open spec fn face_points(s: Seq<u8>, p: int) -> Result<
    (Seq<RawPoint>, int),
    (ErrorKind, Option<Context>),
> {
    let f = spaces_end(s, p);
    if at_line_end(s, f) {
        Err((ErrorKind::TooFewFacePoints, None))
    } else {
        match points_from(s, f) {
            Err(c) => Err((ErrorKind::InvalidIndex, Some(c))),
            Ok((pts, end)) => if pts.len() < 3 {
                Err((ErrorKind::TooFewFacePoints, None))
            } else if !same_shape(pts) {
                Err((ErrorKind::InconsistentFaceShape, None))
            } else {
                Ok((pts, end))
            },
        }
    }
}

/// The zero-based offset that the non-zero index `i` denotes in an
/// attribute array of length `len`: `i - 1` for a positive index, `len + i`
/// for a negative one, and none where that would fall before the start.
pub open spec fn resolve(i: int, len: int) -> Option<int> {
    if i > 0 {
        Some(i - 1)
    } else if len + i >= 0 {
        Some(len + i)
    } else {
        None
    }
}

pub open spec fn resolve_opt(i: Option<i64>, len: int) -> int {
    match i {
        Some(k) => resolve(k as int, len)->Some_0,
        None => 0,
    }
}

/// The first index of a point (position, then texture coordinate, then
/// normal) that reaches before the start of its array.
pub open spec fn unresolved(pt: RawPoint, nv: int, nt: int, nn: int) -> Option<Context> {
    if resolve(pt.v as int, nv) is None {
        Some(Context::VertexIndex)
    } else if pt.t is Some && resolve(pt.t->Some_0 as int, nt) is None {
        Some(Context::TextureIndex)
    } else if pt.n is Some && resolve(pt.n->Some_0 as int, nn) is None {
        Some(Context::NormalIndex)
    } else {
        None
    }
}

/// The first unresolved index among the points from `k` on.
pub open spec fn first_unresolved(pts: Seq<RawPoint>, k: int, nv: int, nt: int, nn: int) -> Option<
    Context,
>
    decreases pts.len() - k,
{
    if k < 0 || k >= pts.len() {
        None
    } else {
        match unresolved(pts[k], nv, nt, nn) {
            Some(c) => Some(c),
            None => first_unresolved(pts, k + 1, nv, nt, nn),
        }
    }
}

/// The corner that a point denotes, given the current lengths of the
/// position, texture-coordinate and normal arrays.
pub open spec fn resolve_point(pt: RawPoint, nv: int, nt: int, nn: int) -> Corner {
    (
        resolve(pt.v as int, nv)->Some_0 as usize,
        resolve_opt(pt.t, nt) as usize,
        resolve_opt(pt.n, nn) as usize,
    )
}

/// The polygon that a face statement at `p` denotes, with its shape and the
/// end of its line's content.
pub open spec fn face_at(s: Seq<u8>, p: int, nv: int, nt: int, nn: int) -> Result<
    (Shape, Seq<Corner>, int),
    (ErrorKind, Option<Context>),
> {
    match face_points(s, p) {
        Err(k) => Err(k),
        Ok((pts, e)) => match first_unresolved(pts, 0, nv, nt, nn) {
            Some(c) => Err((ErrorKind::InvalidIndex, Some(c))),
            None => Ok(
                (pts[0].shape(), pts.map_values(|pt: RawPoint| resolve_point(pt, nv, nt, nn)), e),
            ),
        },
    }
}

/// Reads the index at `p`.
pub fn parse_index(s: &[u8], p: usize) -> (r: Option<(i64, usize)>)
    requires
        p <= s@.len(),
    ensures
        r matches Some((i, e)) ==> index_at(s@, p as int) == Some((i, e as int)) && p < e <= s@.len()
            && index_ok(i as int),
        r is None ==> index_at(s@, p as int) is None,
{
    let len = s.len();
    let neg = byte_is(s, p, 45);
    let a = if byte_is(s, p, 43) || neg {
        p + 1
    } else {
        p
    };
    let limit: u64 = if (usize::MAX as u128) < 0x7fff_ffff_ffff_ffff {
        usize::MAX as u64
    } else {
        0x7fff_ffff_ffff_ffff
    };
    let (e, m) = scan_decimal(s, a, limit);
    match m {
        Some(m) => {
            if e > a && m > 0 {
                let i: i64 = if neg {
                    -(m as i64)
                } else {
                    m as i64
                };
                Some((i, e))
            } else {
                None
            }
        },
        None => None,
    }
}

/// The offset that a non-zero index denotes in an array of length `len`,
/// or `None` where a negative index reaches before the start.
pub fn resolve_index(i: i64, len: usize) -> (r: Option<usize>)
    requires
        index_ok(i as int),
    ensures
        r matches Some(k) ==> resolve(i as int, len as int) == Some(k as int),
        r is None ==> resolve(i as int, len as int) is None,
{
    if i > 0 {
        Some((i - 1) as usize)
    } else {
        let k = (-i) as usize;
        if len >= k {
            Some(len - k)
        } else {
            None
        }
    }
}

/// Reads the face point at `p`.
pub fn parse_face_point(s: &[u8], p: usize) -> (r: Result<(RawPoint, usize), Context>)
    requires
        p <= s@.len(),
    ensures
        r matches Ok((pt, e)) ==> point_at(s@, p as int) == Ok::<_, Context>((pt, e as int)) && p
            < e <= s@.len() && point_ok(pt),
        r matches Err(c) ==> point_at(s@, p as int) == Err::<(RawPoint, int), _>(c),
{
    let len = s.len();
    let (v, e1) = match parse_index(s, p) {
        Some(x) => x,
        None => {
            return Err(Context::VertexIndex);
        },
    };
    if byte_is(s, e1, 47) && byte_is(s, e1 + 1, 47) {
        match parse_index(s, e1 + 2) {
            Some((n, e)) => Ok((RawPoint { v, t: None, n: Some(n) }, e)),
            None => Err(Context::NormalIndex),
        }
    } else if byte_is(s, e1, 47) {
        match parse_index(s, e1 + 1) {
            None => Err(Context::TextureIndex),
            Some((t, e2)) => {
                if byte_is(s, e2, 47) {
                    match parse_index(s, e2 + 1) {
                        Some((n, e)) => Ok((RawPoint { v, t: Some(t), n: Some(n) }, e)),
                        None => Err(Context::NormalIndex),
                    }
                } else {
                    Ok((RawPoint { v, t: Some(t), n: None }, e2))
                }
            },
        }
    } else {
        Ok((RawPoint { v, t: None, n: None }, e1))
    }
}

fn point_shape(pt: &RawPoint) -> (r: Shape)
    ensures
        r == pt.shape(),
{
    match (pt.t, pt.n) {
        (Some(_), Some(_)) => Shape::VTN,
        (Some(_), None) => Shape::VT,
        (None, Some(_)) => Shape::VN,
        (None, None) => Shape::V,
    }
}

proof fn lemma_prefixed(a: Seq<RawPoint>, b: Seq<RawPoint>, x: Result<(Seq<RawPoint>, int), Context>)
    ensures
        prefixed(a, prefixed(b, x)) == prefixed(a + b, x),
{
    if let Ok((rest, end)) = x {
        assert(a + (b + rest) =~= (a + b) + rest);
    }
}

/// Reads the point list of a face statement from `p` on.
pub fn parse_face_points(s: &[u8], p: usize) -> (r: Result<
    (Vec<RawPoint>, usize),
    (ErrorKind, Option<Context>),
>)
    requires
        p <= s@.len(),
    ensures
        r matches Ok((pts, e)) ==> face_points(s@, p as int) == Ok::<_, (ErrorKind, Option<Context>)>(
            (pts@, e as int),
        ) && p <= e <= s@.len() && forall|j: int| 0 <= j < pts@.len() ==> point_ok(#[trigger] pts@[j]),
        r matches Err(k) ==> face_points(s@, p as int) == Err::<(Seq<RawPoint>, int), _>(k),
{
    let len = s.len();
    let f0 = scan_spaces(s, p);
    if f0 >= len || s[f0] == 10 || s[f0] == 13 {
        return Err((ErrorKind::TooFewFacePoints, None));
    }
    let ghost whole = points_from(s@, f0 as int);
    let mut pts: Vec<RawPoint> = Vec::new();
    let mut q = f0;
    let mut end: usize = 0;
    loop
        invariant_except_break
            whole == prefixed(pts@, points_from(s@, q as int)),
        invariant
            p <= f0 <= q < s@.len(),
            len == s@.len(),
            whole == points_from(s@, f0 as int),
            f0 == spaces_end(s@, p as int),
            !at_line_end(s@, f0 as int),
            forall|j: int| 0 <= j < pts@.len() ==> point_ok(#[trigger] pts@[j]),
        ensures
            p <= end <= s@.len(),
            f0 == spaces_end(s@, p as int),
            !at_line_end(s@, f0 as int),
            whole == Ok::<_, Context>((pts@, end as int)),
            forall|j: int| 0 <= j < pts@.len() ==> point_ok(#[trigger] pts@[j]),
        decreases s@.len() - q,
    {
        match parse_face_point(s, q) {
            Err(c) => {
                return Err((ErrorKind::InvalidIndex, Some(c)));
            },
            Ok((pt, e)) => {
                let f = scan_spaces(s, e);
                let ghost before = pts@;
                if f >= len || s[f] == 10 || s[f] == 13 {
                    pts.push(pt);
                    assert(before + seq![pt] =~= pts@);
                    end = f;
                    break ;
                } else if f > e {
                    proof {
                        lemma_prefixed(before, seq![pt], points_from(s@, f as int));
                    }
                    pts.push(pt);
                    assert(before + seq![pt] =~= pts@);
                    q = f;
                } else {
                    return Err((ErrorKind::InvalidIndex, Some(Context::FacePoint)));
                }
            },
        }
    }
    if pts.len() < 3 {
        return Err((ErrorKind::TooFewFacePoints, None));
    }
    let shape = point_shape(&pts[0]);
    let mut k: usize = 1;
    while k < pts.len()
        invariant
            1 <= k <= pts@.len(),
            shape == pts@[0].shape(),
            whole == points_from(s@, f0 as int),
            f0 == spaces_end(s@, p as int),
            !at_line_end(s@, f0 as int),
            whole == Ok::<_, Context>((pts@, end as int)),
            pts@.len() >= 3,
            forall|j: int| 0 <= j < pts@.len() ==> point_ok(#[trigger] pts@[j]),
            forall|j: int| 0 <= j < k ==> (#[trigger] pts@[j]).shape() == shape,
        decreases pts@.len() - k,
    {
        if point_shape(&pts[k]) != shape {
            assert(pts@[k as int].shape() != pts@[0].shape());
            return Err((ErrorKind::InconsistentFaceShape, None));
        }
        k = k + 1;
    }
    Ok((pts, end))
}

} // verus!

verus! {

/// Reads a face statement whose points start at `p`, resolving each index
/// against the current lengths of the attribute arrays.
pub fn parse_face(s: &[u8], p: usize, nv: usize, nt: usize, nn: usize) -> (r: Result<
    (Shape, Vec<Corner>, usize),
    (ErrorKind, Option<Context>),
>)
    requires
        p <= s@.len(),
    ensures
        r matches Ok((shape, poly, e)) ==> face_at(s@, p as int, nv as int, nt as int, nn as int)
            == Ok::<_, (ErrorKind, Option<Context>)>((shape, poly@, e as int)) && p <= e <= s@.len()
            && forall|k: int| 0 <= k < poly@.len() ==> fits(shape, #[trigger] poly@[k]),
        r matches Err(k) ==> face_at(s@, p as int, nv as int, nt as int, nn as int) == Err::<
            (Shape, Seq<Corner>, int),
            _,
        >(k),
{
    let (pts, e) = parse_face_points(s, p)?;
    let ghost rp = |pt: RawPoint| resolve_point(pt, nv as int, nt as int, nn as int);
    let mut poly: Vec<Corner> = Vec::new();
    let mut k: usize = 0;
    while k < pts.len()
        invariant
            0 <= k <= pts@.len(),
            face_points(s@, p as int) == Ok::<_, (ErrorKind, Option<Context>)>((pts@, e as int)),
            forall|j: int| 0 <= j < pts@.len() ==> point_ok(#[trigger] pts@[j]),
            first_unresolved(pts@, 0, nv as int, nt as int, nn as int) == first_unresolved(
                pts@,
                k as int,
                nv as int,
                nt as int,
                nn as int,
            ),
            rp == (|pt: RawPoint| resolve_point(pt, nv as int, nt as int, nn as int)),
            poly@ == pts@.subrange(0, k as int).map_values(rp),
        decreases pts@.len() - k,
    {
        let pt = pts[k];
        let v = match resolve_index(pt.v, nv) {
            Some(v) => v,
            None => {
                return Err((ErrorKind::InvalidIndex, Some(Context::VertexIndex)));
            },
        };
        let t = match pt.t {
            Some(i) => match resolve_index(i, nt) {
                Some(t) => t,
                None => {
                    return Err((ErrorKind::InvalidIndex, Some(Context::TextureIndex)));
                },
            },
            None => 0,
        };
        let n = match pt.n {
            Some(i) => match resolve_index(i, nn) {
                Some(n) => n,
                None => {
                    return Err((ErrorKind::InvalidIndex, Some(Context::NormalIndex)));
                },
            },
            None => 0,
        };
        assert((v, t, n) == rp(pt));
        assert(pts@.subrange(0, k + 1).map_values(rp) =~= pts@.subrange(0, k as int).map_values(
            rp,
        ).push(rp(pt)));
        poly.push((v, t, n));
        k = k + 1;
    }
    assert(pts@.subrange(0, pts@.len() as int) == pts@);
    let shape = point_shape(&pts[0]);
    assert forall|k: int| 0 <= k < poly@.len() implies fits(shape, #[trigger] poly@[k]) by {
        assert(pts@[k].shape() == pts@[0].shape());
    }
    Ok((shape, poly, e))
}

} // verus!

verus! {

/// The polygons of one submesh, in the one shape that all its faces share.
/// Each polygon lists its points as resolved, zero-based offsets.
#[derive(Debug, Clone, PartialEq, Eq)]
pub enum Faces {
    V(Vec<Vec<usize>>),
    VT(Vec<Vec<(usize, usize)>>),
    VN(Vec<Vec<(usize, usize)>>),
    VTN(Vec<Vec<(usize, usize, usize)>>),
}

pub open spec fn corner_v(v: usize) -> Corner {
    (v, 0, 0)
}

pub open spec fn corner_vt(c: (usize, usize)) -> Corner {
    (c.0, c.1, 0)
}

pub open spec fn corner_vn(c: (usize, usize)) -> Corner {
    (c.0, 0, c.1)
}

impl Faces {
    pub open spec fn shape(&self) -> Shape {
        match self {
            Faces::V(_) => Shape::V,
            Faces::VT(_) => Shape::VT,
            Faces::VN(_) => Shape::VN,
            Faces::VTN(_) => Shape::VTN,
        }
    }

    /// The polygons, each as its sequence of corners.
    pub open spec fn polygons(&self) -> Seq<Seq<Corner>> {
        match self {
            Faces::V(f) => f@.map_values(|p: Vec<usize>| p@.map_values(|v: usize| corner_v(v))),
            Faces::VT(f) => f@.map_values(
                |p: Vec<(usize, usize)>| p@.map_values(|c: (usize, usize)| corner_vt(c)),
            ),
            Faces::VN(f) => f@.map_values(
                |p: Vec<(usize, usize)>| p@.map_values(|c: (usize, usize)| corner_vn(c)),
            ),
            Faces::VTN(f) => f@.map_values(|p: Vec<(usize, usize, usize)>| p@),
        }
    }

    /// An empty list of polygons of the given shape.
    pub fn new(shape: Shape) -> (r: Faces)
        ensures
            r.shape() == shape,
            r.polygons() == Seq::<Seq<Corner>>::empty(),
    {
        let r = match shape {
            Shape::V => Faces::V(Vec::new()),
            Shape::VT => Faces::VT(Vec::new()),
            Shape::VN => Faces::VN(Vec::new()),
            Shape::VTN => Faces::VTN(Vec::new()),
        };
        assert(r.polygons() =~= Seq::<Seq<Corner>>::empty());
        r
    }

    /// The shape shared by all polygons.
    pub fn kind(&self) -> (r: Shape)
        ensures
            r == self.shape(),
    {
        match self {
            Faces::V(_) => Shape::V,
            Faces::VT(_) => Shape::VT,
            Faces::VN(_) => Shape::VN,
            Faces::VTN(_) => Shape::VTN,
        }
    }

    /// The number of polygons.
    pub fn len(&self) -> (r: usize)
        ensures
            r == self.polygons().len(),
    {
        match self {
            Faces::V(f) => f.len(),
            Faces::VT(f) => f.len(),
            Faces::VN(f) => f.len(),
            Faces::VTN(f) => f.len(),
        }
    }

    /// Whether there are no polygons.
    pub fn is_empty(&self) -> (r: bool)
        ensures
            r == (self.polygons().len() == 0),
    {
        self.len() == 0
    }

    /// The number of points of polygon `i`.
    pub fn polygon_len(&self, i: usize) -> (r: usize)
        requires
            i < self.polygons().len(),
        ensures
            r == self.polygons()[i as int].len(),
    {
        match self {
            Faces::V(f) => f[i].len(),
            Faces::VT(f) => f[i].len(),
            Faces::VN(f) => f[i].len(),
            Faces::VTN(f) => f[i].len(),
        }
    }

    /// Point `j` of polygon `i`.
    pub fn corner(&self, i: usize, j: usize) -> (r: Corner)
        requires
            i < self.polygons().len(),
            j < self.polygons()[i as int].len(),
        ensures
            r == self.polygons()[i as int][j as int],
    {
        match self {
            Faces::V(f) => (f[i][j], 0, 0),
            Faces::VT(f) => (f[i][j].0, f[i][j].1, 0),
            Faces::VN(f) => (f[i][j].0, 0, f[i][j].1),
            Faces::VTN(f) => f[i][j],
        }
    }

    /// Appends a polygon whose corners fit this list's shape.
    pub fn push_polygon(&mut self, poly: &Vec<Corner>)
        requires
            forall|k: int| 0 <= k < poly@.len() ==> fits(old(self).shape(), #[trigger] poly@[k]),
        ensures
            final(self).shape() == old(self).shape(),
            final(self).polygons() == old(self).polygons().push(poly@),
    {
        match self {
            Faces::V(f) => {
                let mut q: Vec<usize> = Vec::new();
                let mut k: usize = 0;
                while k < poly.len()
                    invariant
                        0 <= k <= poly@.len(),
                        q@.len() == k,
                        forall|j: int| 0 <= j < k ==> corner_v(#[trigger] q@[j]) == poly@[j],
                        forall|j: int| 0 <= j < poly@.len() ==> fits(Shape::V, #[trigger] poly@[j]),
                    decreases poly@.len() - k,
                {
                    q.push(poly[k].0);
                    k = k + 1;
                }
                assert(q@.map_values(|v: usize| corner_v(v)) =~= poly@);
                let ghost before = f@;
                f.push(q);
                assert(f@.map_values(|p: Vec<usize>| p@.map_values(|v: usize| corner_v(v)))
                    =~= before.map_values(|p: Vec<usize>| p@.map_values(|v: usize| corner_v(v))).push(
                    poly@,
                ));
            },
            Faces::VT(f) => {
                let mut q: Vec<(usize, usize)> = Vec::new();
                let mut k: usize = 0;
                while k < poly.len()
                    invariant
                        0 <= k <= poly@.len(),
                        q@.len() == k,
                        forall|j: int| 0 <= j < k ==> corner_vt(#[trigger] q@[j]) == poly@[j],
                        forall|j: int|
                            0 <= j < poly@.len() ==> fits(Shape::VT, #[trigger] poly@[j]),
                    decreases poly@.len() - k,
                {
                    q.push((poly[k].0, poly[k].1));
                    k = k + 1;
                }
                assert(q@.map_values(|c: (usize, usize)| corner_vt(c)) =~= poly@);
                let ghost before = f@;
                f.push(q);
                assert(f@.map_values(
                    |p: Vec<(usize, usize)>| p@.map_values(|c: (usize, usize)| corner_vt(c)),
                ) =~= before.map_values(
                    |p: Vec<(usize, usize)>| p@.map_values(|c: (usize, usize)| corner_vt(c)),
                ).push(poly@));
            },
            Faces::VN(f) => {
                let mut q: Vec<(usize, usize)> = Vec::new();
                let mut k: usize = 0;
                while k < poly.len()
                    invariant
                        0 <= k <= poly@.len(),
                        q@.len() == k,
                        forall|j: int| 0 <= j < k ==> corner_vn(#[trigger] q@[j]) == poly@[j],
                        forall|j: int|
                            0 <= j < poly@.len() ==> fits(Shape::VN, #[trigger] poly@[j]),
                    decreases poly@.len() - k,
                {
                    q.push((poly[k].0, poly[k].2));
                    k = k + 1;
                }
                assert(q@.map_values(|c: (usize, usize)| corner_vn(c)) =~= poly@);
                let ghost before = f@;
                f.push(q);
                assert(f@.map_values(
                    |p: Vec<(usize, usize)>| p@.map_values(|c: (usize, usize)| corner_vn(c)),
                ) =~= before.map_values(
                    |p: Vec<(usize, usize)>| p@.map_values(|c: (usize, usize)| corner_vn(c)),
                ).push(poly@));
            },
            Faces::VTN(f) => {
                let mut q: Vec<Corner> = Vec::new();
                let mut k: usize = 0;
                while k < poly.len()
                    invariant
                        0 <= k <= poly@.len(),
                        q@ == poly@.subrange(0, k as int),
                    decreases poly@.len() - k,
                {
                    q.push(poly[k]);
                    assert(poly@.subrange(0, k + 1) =~= poly@.subrange(0, k as int).push(poly@[k as int]));
                    k = k + 1;
                }
                assert(q@ =~= poly@);
                let ghost before = f@;
                f.push(q);
                assert(f@.map_values(|p: Vec<(usize, usize, usize)>| p@) =~= before.map_values(
                    |p: Vec<(usize, usize, usize)>| p@,
                ).push(poly@));
            },
        }
    }
}

} // verus!

verus! {

/// Index resolution: against an array of length `n`, a positive index `i`
/// with `1 <= i <= n` denotes offset `i - 1`, a negative index `-k` with
/// `1 <= k <= n` denotes offset `n - k`, and a negative index that reaches
/// before the start denotes nothing.
pub proof fn index_resolution(i: int, n: int)
    requires
        n >= 0,
    ensures
        1 <= i <= n ==> resolve(i, n) == Some(i - 1),
        1 <= -i <= n ==> resolve(i, n) == Some(n + i),
        -i > n ==> resolve(i, n) is None,
{
}

/// The index `0` is never read as an index: whatever the text, a parsed
/// index is non-zero.
pub proof fn zero_index_rejected(s: Seq<u8>, p: int)
    ensures
        index_at(s, p) matches Some((i, e)) ==> i != 0,
{
}

} // verus!
