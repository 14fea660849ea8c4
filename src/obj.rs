use vstd::prelude::*;

use crate::error::{Context, ErrorKind, WobjError};
use crate::faces::{face_at, parse_face, Corner, Faces, Shape};
use crate::geometry::{Vector2, Vector3, VertexData};
use crate::statement::{
    groups_at, parse_groups, parse_smoothing, parse_text, parse_vec2, parse_vec3, smoothing_at,
    text_at, vec2_at, vec3_at,
};
use crate::trimesh::{
    distinct_in_order, fan_all, first_bad_lookup, indexes, triangulate_faces, vertices_match,
    Indicies, Vertices,
};
use crate::text::{
    alnum_end, at, next_line, scan_alnum, skip_ignorable, skip_ignorable_lines, to_next_line,
};

verus! {

/// A position or normal as its three decimal literals.
pub type Coords3 = (Seq<u8>, Seq<u8>, Seq<u8>);

/// A texture coordinate as its two decimal literals.
pub type Coords2 = (Seq<u8>, Seq<u8>);

/// What a finished submesh holds.
pub struct MeshModel {
    pub name: Option<Seq<char>>,
    pub material: Option<Seq<char>>,
    pub mtllib: Option<Seq<char>>,
    pub groups: Seq<Seq<char>>,
    pub smoothing: u32,
    pub shape: Shape,
    pub polygons: Seq<Seq<Corner>>,
}

/// What a document holds: the attribute arrays and the finished submeshes.
pub struct DocModel {
    pub positions: Seq<Coords3>,
    pub normals: Seq<Coords3>,
    pub uvs: Seq<Coords2>,
    pub meshes: Seq<MeshModel>,
}

/// The submesh being accumulated: the attributes set so far, and its faces
/// once one has been read.
pub struct AccModel {
    pub name: Option<Seq<char>>,
    pub material: Option<Seq<char>>,
    pub mtllib: Option<Seq<char>>,
    pub groups: Seq<Seq<char>>,
    pub smoothing: u32,
    pub faces: Option<(Shape, Seq<Seq<Corner>>)>,
}

/// The state of the assembler between statements.
pub struct StateModel {
    pub doc: DocModel,
    pub acc: AccModel,
}

/// The statements the assembler knows.
#[derive(Debug, Clone, Copy, PartialEq, Eq, Structural)]
pub enum Keyword {
    Vertex,
    Normal,
    Texture,
    Face,
    Group,
    Smoothing,
    Object,
    Mtllib,
    Usemtl,
    Other,
}

pub open spec fn bytes1(k: Seq<u8>, b0: u8) -> bool {
    k.len() == 1 && k[0] == b0
}

pub open spec fn bytes2(k: Seq<u8>, b0: u8, b1: u8) -> bool {
    k.len() == 2 && k[0] == b0 && k[1] == b1
}

pub open spec fn bytes6(k: Seq<u8>, b0: u8, b1: u8, b2: u8, b3: u8, b4: u8, b5: u8) -> bool {
    k.len() == 6 && k[0] == b0 && k[1] == b1 && k[2] == b2 && k[3] == b3 && k[4] == b4 && k[5]
        == b5
}

/// The statement a keyword names: `v`, `vn`, `vt`, `f`, `g`, `s`, `o`,
/// `mtllib`, `usemtl`, or another one.
pub open spec fn keyword_of(k: Seq<u8>) -> Keyword {
    if bytes1(k, 118) {
        Keyword::Vertex
    } else if bytes2(k, 118, 110) {
        Keyword::Normal
    } else if bytes2(k, 118, 116) {
        Keyword::Texture
    } else if bytes1(k, 102) {
        Keyword::Face
    } else if bytes1(k, 103) {
        Keyword::Group
    } else if bytes1(k, 115) {
        Keyword::Smoothing
    } else if bytes1(k, 111) {
        Keyword::Object
    } else if bytes6(k, 109, 116, 108, 108, 105, 98) {
        Keyword::Mtllib
    } else if bytes6(k, 117, 115, 101, 109, 116, 108) {
        Keyword::Usemtl
    } else {
        Keyword::Other
    }
}

pub open spec fn initial_state() -> StateModel {
    StateModel {
        doc: DocModel {
            positions: Seq::empty(),
            normals: Seq::empty(),
            uvs: Seq::empty(),
            meshes: Seq::empty(),
        },
        acc: AccModel {
            name: None,
            material: None,
            mtllib: None,
            groups: Seq::empty(),
            smoothing: 0,
            faces: None,
        },
    }
}

/// Ends the current submesh where it has faces: it joins the document and
/// the accumulator keeps its attributes but no faces.
pub open spec fn flush(st: StateModel) -> StateModel {
    match st.acc.faces {
        Some((shape, polygons)) => StateModel {
            doc: DocModel {
                positions: st.doc.positions,
                normals: st.doc.normals,
                uvs: st.doc.uvs,
                meshes: st.doc.meshes.push(
                    MeshModel {
                        name: st.acc.name,
                        material: st.acc.material,
                        mtllib: st.acc.mtllib,
                        groups: st.acc.groups,
                        smoothing: st.acc.smoothing,
                        shape,
                        polygons,
                    },
                ),
            },
            acc: AccModel {
                name: st.acc.name,
                material: st.acc.material,
                mtllib: st.acc.mtllib,
                groups: st.acc.groups,
                smoothing: st.acc.smoothing,
                faces: None,
            },
        },
        None => st,
    }
}

pub open spec fn with_doc(st: StateModel, doc: DocModel) -> StateModel {
    StateModel { doc, acc: st.acc }
}

pub open spec fn with_acc(st: StateModel, acc: AccModel) -> StateModel {
    StateModel { doc: st.doc, acc }
}

/// Adds a polygon to the current submesh; the first one fixes the shape.
pub open spec fn add_face(st: StateModel, shape: Shape, poly: Seq<Corner>) -> Option<StateModel> {
    let a = st.acc;
    match a.faces {
        None => Some(
            with_acc(
                st,
                AccModel {
                    name: a.name,
                    material: a.material,
                    mtllib: a.mtllib,
                    groups: a.groups,
                    smoothing: a.smoothing,
                    faces: Some((shape, seq![poly])),
                },
            ),
        ),
        Some((fixed, polys)) => if fixed == shape {
            Some(
                with_acc(
                    st,
                    AccModel {
                        name: a.name,
                        material: a.material,
                        mtllib: a.mtllib,
                        groups: a.groups,
                        smoothing: a.smoothing,
                        faces: Some((fixed, polys.push(poly))),
                    },
                ),
            )
        } else {
            None
        },
    }
}

pub open spec fn fail(kind: ErrorKind, context: Context, q: int) -> WobjError {
    WobjError { kind, context, detail: None, offset: q as usize }
}

pub open spec fn fail_in(kind: ErrorKind, context: Context, detail: Option<Context>, q: int) -> WobjError {
    WobjError { kind, context, detail, offset: q as usize }
}

/// The effect of the statement whose keyword is `s[q..e)` and whose
/// arguments start at `e + 1`: the next state and where its arguments end.
#[verifier::opaque]
pub open spec fn statement(s: Seq<u8>, q: int, e: int, st: StateModel) -> Result<
    (StateModel, int),
    WobjError,
> {
    let a = e + 1;
    let d = st.doc;
    match keyword_of(s.subrange(q, e)) {
        Keyword::Vertex => match vec3_at(s, a) {
            Some((v, r)) => Ok(
                (
                    with_doc(
                        st,
                        DocModel {
                            positions: d.positions.push(v),
                            normals: d.normals,
                            uvs: d.uvs,
                            meshes: d.meshes,
                        },
                    ),
                    r,
                ),
            ),
            None => Err(fail(ErrorKind::MalformedGeometry, Context::VertexGeometry, q)),
        },
        Keyword::Normal => match vec3_at(s, a) {
            Some((v, r)) => Ok(
                (
                    with_doc(
                        st,
                        DocModel {
                            positions: d.positions,
                            normals: d.normals.push(v),
                            uvs: d.uvs,
                            meshes: d.meshes,
                        },
                    ),
                    r,
                ),
            ),
            None => Err(fail(ErrorKind::MalformedGeometry, Context::VertexNormal, q)),
        },
        Keyword::Texture => match vec2_at(s, a) {
            Some((v, r)) => Ok(
                (
                    with_doc(
                        st,
                        DocModel {
                            positions: d.positions,
                            normals: d.normals,
                            uvs: d.uvs.push(v),
                            meshes: d.meshes,
                        },
                    ),
                    r,
                ),
            ),
            None => Err(fail(ErrorKind::MalformedGeometry, Context::VertexTexture, q)),
        },
        Keyword::Face => match face_at(
            s,
            a,
            d.positions.len() as int,
            d.uvs.len() as int,
            d.normals.len() as int,
        ) {
            Ok((shape, poly, r)) => match add_face(st, shape, poly) {
                Some(st2) => Ok((st2, r)),
                None => Err(fail(ErrorKind::InconsistentFaceShape, Context::ElementFace, q)),
            },
            Err((k, d)) => Err(fail_in(k, Context::ElementFace, d, q)),
        },
        Keyword::Group => match groups_at(s, a) {
            Some((gs, r)) => {
                let f = flush(st);
                Ok(
                    (
                        with_acc(
                            f,
                            AccModel {
                                name: f.acc.name,
                                material: f.acc.material,
                                mtllib: f.acc.mtllib,
                                groups: gs,
                                smoothing: f.acc.smoothing,
                                faces: f.acc.faces,
                            },
                        ),
                        r,
                    ),
                )
            },
            None => Err(fail(ErrorKind::MalformedStatement, Context::AttributeGroup, q)),
        },
        Keyword::Smoothing => match smoothing_at(s, a) {
            Some((g, r)) => {
                let f = flush(st);
                Ok(
                    (
                        with_acc(
                            f,
                            AccModel {
                                name: f.acc.name,
                                material: f.acc.material,
                                mtllib: f.acc.mtllib,
                                groups: f.acc.groups,
                                smoothing: g,
                                faces: f.acc.faces,
                            },
                        ),
                        r,
                    ),
                )
            },
            None => Err(fail(ErrorKind::MalformedStatement, Context::AttributeSmoothing, q)),
        },
        Keyword::Object => match text_at(s, a) {
            Some((t, r)) => {
                let f = flush(st);
                Ok(
                    (
                        with_acc(
                            f,
                            AccModel {
                                name: Some(t),
                                material: f.acc.material,
                                mtllib: f.acc.mtllib,
                                groups: f.acc.groups,
                                smoothing: f.acc.smoothing,
                                faces: f.acc.faces,
                            },
                        ),
                        r,
                    ),
                )
            },
            None => Err(fail(ErrorKind::MalformedStatement, Context::AttributeObjectName, q)),
        },
        Keyword::Mtllib => match text_at(s, a) {
            Some((t, r)) => {
                let f = flush(st);
                Ok(
                    (
                        with_acc(
                            f,
                            AccModel {
                                name: f.acc.name,
                                material: f.acc.material,
                                mtllib: Some(t),
                                groups: f.acc.groups,
                                smoothing: f.acc.smoothing,
                                faces: f.acc.faces,
                            },
                        ),
                        r,
                    ),
                )
            },
            None => Err(fail(ErrorKind::MalformedStatement, Context::AttributeMtllib, q)),
        },
        Keyword::Usemtl => match text_at(s, a) {
            Some((t, r)) => {
                let f = flush(st);
                Ok(
                    (
                        with_acc(
                            f,
                            AccModel {
                                name: f.acc.name,
                                material: Some(t),
                                mtllib: f.acc.mtllib,
                                groups: f.acc.groups,
                                smoothing: f.acc.smoothing,
                                faces: f.acc.faces,
                            },
                        ),
                        r,
                    ),
                )
            },
            None => Err(fail(ErrorKind::MalformedStatement, Context::AttributeMaterial, q)),
        },
        Keyword::Other => Ok((st, a)),
    }
}

/// The document that the statements from `p` on give, starting in state
/// `st`. Blank and comment lines are skipped; each statement is a keyword of
/// letters and digits, one space, its arguments, and whatever else its line
/// holds; at the end of input the current submesh is flushed.
pub open spec fn parse_from(s: Seq<u8>, p: int, st: StateModel) -> Result<DocModel, WobjError>
    decreases s.len() - p,
{
    let q = skip_ignorable(s, p);
    if q >= s.len() {
        Ok(flush(st).doc)
    } else {
        let e = alnum_end(s, q);
        if e > q && at(s, e, 32) {
            match statement(s, q, e, st) {
                Err(err) => Err(err),
                Ok((st2, r)) => match next_line(s, r) {
                    Some(n) => if p < n <= s.len() {
                        parse_from(s, n, st2)
                    } else {
                        Err(fail(ErrorKind::MalformedStatement, Context::LineEnd, q))
                    },
                    None => Err(fail(ErrorKind::MalformedStatement, Context::LineEnd, q)),
                },
            }
        } else {
            Err(fail(ErrorKind::MalformedStatement, Context::Keyword, q))
        }
    }
}

/// The document that a whole file gives.
pub open spec fn parse_spec(s: Seq<u8>) -> Result<DocModel, WobjError> {
    parse_from(s, 0, initial_state())
}

/// One submesh: its attributes and its faces.
#[derive(Debug, Clone, PartialEq, Eq)]
pub struct MeshData {
    name: Option<String>,
    material: Option<String>,
    mtllib: Option<String>,
    groups: Vec<String>,
    smoothing: u32,
    faces: Faces,
}

pub open spec fn opt_view(o: Option<String>) -> Option<Seq<char>> {
    match o {
        Some(t) => Some(t@),
        None => None,
    }
}

pub open spec fn strings_view(v: Seq<String>) -> Seq<Seq<char>> {
    v.map_values(|g: String| g@)
}

impl View for MeshData {
    type V = MeshModel;

    closed spec fn view(&self) -> MeshModel {
        MeshModel {
            name: opt_view(self.name),
            material: opt_view(self.material),
            mtllib: opt_view(self.mtllib),
            groups: strings_view(self.groups@),
            smoothing: self.smoothing,
            shape: self.faces.shape(),
            polygons: self.faces.polygons(),
        }
    }
}

/// A parsed OBJ document: attribute arrays and submeshes.
#[derive(Debug, Clone, PartialEq, Eq)]
pub struct Obj {
    data: VertexData,
    meshes: Vec<MeshData>,
}

impl View for Obj {
    type V = DocModel;

    closed spec fn view(&self) -> DocModel {
        DocModel {
            positions: self.data.positions(),
            normals: self.data.normals(),
            uvs: self.data.uvs(),
            meshes: self.meshes@.map_values(|m: MeshData| m@),
        }
    }
}

struct Acc {
    name: Option<String>,
    material: Option<String>,
    mtllib: Option<String>,
    groups: Vec<String>,
    smoothing: u32,
    faces: Option<Faces>,
}

impl View for Acc {
    type V = AccModel;

    closed spec fn view(&self) -> AccModel {
        AccModel {
            name: opt_view(self.name),
            material: opt_view(self.material),
            mtllib: opt_view(self.mtllib),
            groups: strings_view(self.groups@),
            smoothing: self.smoothing,
            faces: match self.faces {
                Some(f) => Some((f.shape(), f.polygons())),
                None => None,
            },
        }
    }
}

spec fn state_of(obj: Obj, acc: Acc) -> StateModel {
    StateModel { doc: obj@, acc: acc@ }
}

fn copy_text(o: &Option<String>) -> (r: Option<String>)
    ensures
        opt_view(r) == opt_view(*o),
{
    match o {
        Some(t) => Some(t.clone()),
        None => None,
    }
}

fn copy_strings(v: &Vec<String>) -> (r: Vec<String>)
    ensures
        strings_view(r@) == strings_view(v@),
{
    let mut out: Vec<String> = Vec::new();
    let mut k: usize = 0;
    while k < v.len()
        invariant
            0 <= k <= v@.len(),
            strings_view(out@) == strings_view(v@.subrange(0, k as int)),
        decreases v@.len() - k,
    {
        let ghost before = out@;
        out.push(v[k].clone());
        assert(strings_view(out@) =~= strings_view(before).push(v@[k as int]@));
        assert(strings_view(v@.subrange(0, k + 1)) =~= strings_view(v@.subrange(0, k as int)).push(
            v@[k as int]@,
        ));
        k = k + 1;
    }
    assert(v@.subrange(0, v@.len() as int) =~= v@);
    out
}

fn flush_acc(obj: &mut Obj, acc: &mut Acc)
    ensures
        state_of(*final(obj), *final(acc)) == flush(state_of(*old(obj), *old(acc))),
{
    let ghost st = state_of(*obj, *acc);
    match acc.faces.take() {
        Some(faces) => {
            let mesh = MeshData {
                name: copy_text(&acc.name),
                material: copy_text(&acc.material),
                mtllib: copy_text(&acc.mtllib),
                groups: copy_strings(&acc.groups),
                smoothing: acc.smoothing,
                faces,
            };
            let ghost before = obj.meshes@;
            obj.meshes.push(mesh);
            assert(obj.meshes@.map_values(|m: MeshData| m@) =~= before.map_values(
                |m: MeshData| m@,
            ).push(mesh@));
            assert(state_of(*obj, *acc) == flush(st));
        },
        None => {},
    }
}

/// Which statement the keyword `s[q..e)` starts.
fn classify(s: &[u8], q: usize, e: usize) -> (r: Keyword)
    requires
        q <= e <= s@.len(),
    ensures
        r == keyword_of(s@.subrange(q as int, e as int)),
{
    let n = e - q;
    if n == 1 {
        let b = s[q];
        if b == 118 {
            Keyword::Vertex
        } else if b == 102 {
            Keyword::Face
        } else if b == 103 {
            Keyword::Group
        } else if b == 115 {
            Keyword::Smoothing
        } else if b == 111 {
            Keyword::Object
        } else {
            Keyword::Other
        }
    } else if n == 2 && s[q] == 118 && s[q + 1] == 110 {
        Keyword::Normal
    } else if n == 2 && s[q] == 118 && s[q + 1] == 116 {
        Keyword::Texture
    } else if n == 6 && s[q] == 109 && s[q + 1] == 116 && s[q + 2] == 108 && s[q + 3] == 108 && s[q
        + 4] == 105 && s[q + 5] == 98 {
        Keyword::Mtllib
    } else if n == 6 && s[q] == 117 && s[q + 1] == 115 && s[q + 2] == 101 && s[q + 3] == 109 && s[q
        + 4] == 116 && s[q + 5] == 108 {
        Keyword::Usemtl
    } else {
        Keyword::Other
    }
}

} // verus!

verus! {

impl Obj {
    fn empty() -> (r: Obj)
        ensures
            r@ == initial_state().doc,
    {
        let r = Obj { data: VertexData::new(), meshes: Vec::new() };
        assert(r@.positions =~= Seq::<Coords3>::empty());
        assert(r@.normals =~= Seq::<Coords3>::empty());
        assert(r@.uvs =~= Seq::<Coords2>::empty());
        assert(r@.meshes =~= Seq::<MeshModel>::empty());
        r
    }
}

impl Acc {
    fn empty() -> (r: Acc)
        ensures
            r@ == initial_state().acc,
    {
        let r = Acc {
            name: None,
            material: None,
            mtllib: None,
            groups: Vec::new(),
            smoothing: 0,
            faces: None,
        };
        assert(r@.groups =~= Seq::<Seq<char>>::empty());
        r
    }
}

/// Carries out the statement whose keyword is `s[q..e)`.
fn run_statement(s: &[u8], q: usize, e: usize, obj: &mut Obj, acc: &mut Acc) -> (r: Result<
    usize,
    WobjError,
>)
    requires
        q < e < s@.len(),
    ensures
        match statement(s@, q as int, e as int, state_of(*old(obj), *old(acc))) {
            Ok((st, end)) => r == Ok::<usize, WobjError>(end as usize) && end == r->Ok_0
                && state_of(*final(obj), *final(acc)) == st && e < end <= s@.len(),
            Err(err) => r == Err::<usize, WobjError>(err),
        },
{
    let len = s.len();
    let a = e + 1;
    let ghost st = state_of(*obj, *acc);
    proof {
        reveal(statement);
    }
    match classify(s, q, e) {
        Keyword::Vertex => match parse_vec3(s, a) {
            Some((v, end)) => {
                let ghost before = obj.data.vertex@;
                obj.data.vertex.push(v);
                assert(obj.data.vertex@.map_values(|p: Vector3| p@) =~= before.map_values(
                    |p: Vector3| p@,
                ).push(v@));
                Ok(end)
            },
            None => Err(WobjError::new(ErrorKind::MalformedGeometry, Context::VertexGeometry, q)),
        },
        Keyword::Normal => match parse_vec3(s, a) {
            Some((v, end)) => {
                let ghost before = obj.data.normal@;
                obj.data.normal.push(v);
                assert(obj.data.normal@.map_values(|p: Vector3| p@) =~= before.map_values(
                    |p: Vector3| p@,
                ).push(v@));
                Ok(end)
            },
            None => Err(WobjError::new(ErrorKind::MalformedGeometry, Context::VertexNormal, q)),
        },
        Keyword::Texture => match parse_vec2(s, a) {
            Some((v, end)) => {
                let ghost before = obj.data.texture@;
                obj.data.texture.push(v);
                assert(obj.data.texture@.map_values(|p: Vector2| p@) =~= before.map_values(
                    |p: Vector2| p@,
                ).push(v@));
                Ok(end)
            },
            None => Err(WobjError::new(ErrorKind::MalformedGeometry, Context::VertexTexture, q)),
        },
        Keyword::Face => {
            let nv = obj.data.vertex.len();
            let nt = obj.data.texture.len();
            let nn = obj.data.normal.len();
            match parse_face(s, a, nv, nt, nn) {
                Ok((shape, poly, end)) => {
                    match acc.faces.take() {
                        None => {
                            let mut f = Faces::new(shape);
                            f.push_polygon(&poly);
                            assert(f.polygons() =~= seq![poly@]);
                            acc.faces = Some(f);
                        },
                        Some(f) => {
                            let mut f = f;
                            if f.kind() != shape {
                                return Err(
                                    WobjError::new(
                                        ErrorKind::InconsistentFaceShape,
                                        Context::ElementFace,
                                        q,
                                    ),
                                );
                            }
                            f.push_polygon(&poly);
                            acc.faces = Some(f);
                        },
                    }
                    Ok(end)
                },
                Err((k, d)) => Err(WobjError::within(k, Context::ElementFace, d, q)),
            }
        },
        Keyword::Group => match parse_groups(s, a) {
            Some((gs, end)) => {
                flush_acc(obj, acc);
                acc.groups = gs;
                Ok(end)
            },
            None => Err(WobjError::new(ErrorKind::MalformedStatement, Context::AttributeGroup, q)),
        },
        Keyword::Smoothing => match parse_smoothing(s, a) {
            Some((g, end)) => {
                flush_acc(obj, acc);
                acc.smoothing = g;
                Ok(end)
            },
            None => Err(
                WobjError::new(ErrorKind::MalformedStatement, Context::AttributeSmoothing, q),
            ),
        },
        Keyword::Object => match parse_text(s, a) {
            Some((t, end)) => {
                flush_acc(obj, acc);
                acc.name = Some(t);
                Ok(end)
            },
            None => Err(
                WobjError::new(ErrorKind::MalformedStatement, Context::AttributeObjectName, q),
            ),
        },
        Keyword::Mtllib => match parse_text(s, a) {
            Some((t, end)) => {
                flush_acc(obj, acc);
                acc.mtllib = Some(t);
                Ok(end)
            },
            None => Err(WobjError::new(ErrorKind::MalformedStatement, Context::AttributeMtllib, q)),
        },
        Keyword::Usemtl => match parse_text(s, a) {
            Some((t, end)) => {
                flush_acc(obj, acc);
                acc.material = Some(t);
                Ok(end)
            },
            None => Err(
                WobjError::new(ErrorKind::MalformedStatement, Context::AttributeMaterial, q),
            ),
        },
        Keyword::Other => Ok(a),
    }
}

impl Obj {
    /// Parses the bytes of an OBJ file.
    pub fn parse(bytes: &[u8]) -> (r: Result<Obj, WobjError>)
        ensures
            r matches Ok(o) ==> parse_spec(bytes@) == Ok::<DocModel, WobjError>(o@),
            r matches Err(e) ==> parse_spec(bytes@) == Err::<DocModel, WobjError>(e),
    {
        let s = bytes;
        let len = s.len();
        let mut obj = Obj::empty();
        let mut acc = Acc::empty();
        let mut p: usize = 0;
        loop
            invariant
                s@ == bytes@,
                p <= s@.len(),
                len == s@.len(),
                parse_from(s@, p as int, state_of(obj, acc)) == parse_spec(s@),
            decreases s@.len() - p,
        {
            let q = skip_ignorable_lines(s, p);
            if q >= len {
                flush_acc(&mut obj, &mut acc);
                return Ok(obj);
            }
            let e = scan_alnum(s, q);
            if !(e > q && e < len && s[e] == 32) {
                return Err(WobjError::new(ErrorKind::MalformedStatement, Context::Keyword, q));
            }
            let end = run_statement(s, q, e, &mut obj, &mut acc)?;
            match to_next_line(s, end) {
                Some(n) => {
                    p = n;
                },
                None => {
                    return Err(WobjError::new(ErrorKind::MalformedStatement, Context::LineEnd, q));
                },
            }
        }
    }
}

} // verus!

verus! {

/// Shape consistency: once the first face of a submesh has fixed its shape,
/// a face statement whose points have another shape fails with
/// `InconsistentFaceShape`, whichever shape was fixed first.
pub proof fn face_shape_mismatch_fails(
    s: Seq<u8>,
    q: int,
    e: int,
    st: StateModel,
    fixed: Shape,
    polys: Seq<Seq<Corner>>,
)
    requires
        keyword_of(s.subrange(q, e)) == Keyword::Face,
        st.acc.faces == Some((fixed, polys)),
        face_at(
            s,
            e + 1,
            st.doc.positions.len() as int,
            st.doc.uvs.len() as int,
            st.doc.normals.len() as int,
        ) matches Ok((shape, poly, r)) && shape != fixed,
    ensures
        statement(s, q, e, st) == Err::<(StateModel, int), WobjError>(
            fail(ErrorKind::InconsistentFaceShape, Context::ElementFace, q),
        ),
{
    reveal(statement);
}

/// Shape consistency over whole inputs: in any state whose current submesh
/// already has faces of one shape, when the next statement (after blank and
/// comment lines) is a face of another shape, parsing from there fails with
/// `InconsistentFaceShape` at that statement.
pub proof fn face_shape_mismatch_fails_parse(
    s: Seq<u8>,
    p: int,
    q: int,
    e: int,
    st: StateModel,
    fixed: Shape,
    polys: Seq<Seq<Corner>>,
)
    requires
        q == skip_ignorable(s, p),
        e == alnum_end(s, q),
        q < s.len(),
        e > q,
        at(s, e, 32),
        keyword_of(s.subrange(q, e)) == Keyword::Face,
        st.acc.faces == Some((fixed, polys)),
        face_at(
            s,
            e + 1,
            st.doc.positions.len() as int,
            st.doc.uvs.len() as int,
            st.doc.normals.len() as int,
        ) matches Ok((shape, poly, r)) && shape != fixed,
    ensures
        parse_from(s, p, st) == Err::<DocModel, WobjError>(
            fail(ErrorKind::InconsistentFaceShape, Context::ElementFace, q),
        ),
{
    face_shape_mismatch_fails(s, q, e, st, fixed, polys);
}

/// Determinism of parsing: the same bytes always give the same document.
pub proof fn parse_deterministic(s: Seq<u8>, a: DocModel, b: DocModel)
    requires
        parse_spec(s) == Ok::<DocModel, WobjError>(a),
        parse_spec(s) == Ok::<DocModel, WobjError>(b),
    ensures
        a == b,
{
}

/// OBJ mesh object: one submesh together with the attribute arrays of its
/// document.
pub struct ObjMesh<'obj> {
    data: &'obj VertexData,
    mesh: &'obj MeshData,
}

impl<'obj> ObjMesh<'obj> {
    pub closed spec fn model(&self) -> MeshModel {
        self.mesh@
    }

    pub closed spec fn data_spec(&self) -> VertexData {
        *self.data
    }

    pub(crate) fn new(data: &'obj VertexData, mesh: &'obj MeshData) -> (r: Self)
        ensures
            r.model() == mesh@,
            r.data_spec() == *data,
    {
        ObjMesh { data, mesh }
    }

    /// Name of the mesh object
    pub fn name(&self) -> (r: Option<&'obj str>)
        ensures
            r matches Some(t) ==> self.model().name == Some(t@),
            r is None ==> self.model().name is None,
    {
        match &self.mesh.name {
            Some(t) => Some(t.as_str()),
            None => None,
        }
    }

    /// Material name of the mesh object
    pub fn material(&self) -> (r: Option<&'obj str>)
        ensures
            r matches Some(t) ==> self.model().material == Some(t@),
            r is None ==> self.model().material is None,
    {
        match &self.mesh.material {
            Some(t) => Some(t.as_str()),
            None => None,
        }
    }

    /// Relative path to the material library of the mesh object
    pub fn mtllib(&self) -> (r: Option<&'obj str>)
        ensures
            r matches Some(t) ==> self.model().mtllib == Some(t@),
            r is None ==> self.model().mtllib is None,
    {
        match &self.mesh.mtllib {
            Some(t) => Some(t.as_str()),
            None => None,
        }
    }

    /// Names of the groups associated with the mesh object
    pub fn groups(&self) -> (r: &'obj [String])
        ensures
            strings_view(r@) == self.model().groups,
    {
        self.mesh.groups.as_slice()
    }

    /// Smoothing group of the mesh object (0 when off)
    pub fn smoothing(&self) -> (r: u32)
        ensures
            r == self.model().smoothing,
    {
        self.mesh.smoothing
    }

    /// Faces of the mesh object
    pub fn faces(&self) -> (r: &'obj Faces)
        ensures
            r.shape() == self.model().shape,
            r.polygons() == self.model().polygons,
    {
        &self.mesh.faces
    }

    /// Creates a triangulated mesh from the faces: an index buffer with three
    /// slots per triangle of each polygon's fan, and one vertex per distinct
    /// corner, in order of first appearance. Fails with `IndexOutOfRange`
    /// where a corner refers past the end of an attribute array.
    pub fn triangulate(&self) -> (r: Result<(Indicies, Vertices), WobjError>)
        ensures
            r matches Ok((ind, v)) ==> indexes(
                ind.0@,
                fan_all(self.model().polygons),
                distinct_in_order(fan_all(self.model().polygons)),
            ) && vertices_match(
                v,
                distinct_in_order(fan_all(self.model().polygons)),
                self.model().shape,
                self.data_spec(),
            ),
            r is Ok <==> first_bad_lookup(
                distinct_in_order(fan_all(self.model().polygons)),
                self.model().shape,
                self.data_spec(),
                0,
            ) is None,
            r matches Err(e) ==> e.kind == ErrorKind::IndexOutOfRange && e.offset == 0
                && e.detail is None && Some(e.context) == first_bad_lookup(
                distinct_in_order(fan_all(self.model().polygons)),
                self.model().shape,
                self.data_spec(),
                0,
            ),
    {
        triangulate_faces(&self.mesh.faces, self.data)
    }
}

impl Obj {
    /// The attribute arrays.
    pub fn data(&self) -> (r: &VertexData)
        ensures
            r.positions() == self@.positions,
            r.normals() == self@.normals,
            r.uvs() == self@.uvs,
    {
        &self.data
    }

    /// Vertex positions, in file order.
    pub fn vertices(&self) -> (r: &[Vector3])
        ensures
            r@.map_values(|p: Vector3| p@) == self@.positions,
    {
        self.data.vertex.as_slice()
    }

    /// Vertex normals, in file order.
    pub fn normals(&self) -> (r: &[Vector3])
        ensures
            r@.map_values(|p: Vector3| p@) == self@.normals,
    {
        self.data.normal.as_slice()
    }

    /// Texture coordinates, in file order.
    pub fn uvs(&self) -> (r: &[Vector2])
        ensures
            r@.map_values(|p: Vector2| p@) == self@.uvs,
    {
        self.data.texture.as_slice()
    }

    /// The number of submeshes.
    pub fn mesh_count(&self) -> (r: usize)
        ensures
            r == self@.meshes.len(),
    {
        self.meshes.len()
    }

    /// Submesh `i`, with the attribute arrays.
    pub fn mesh(&self, i: usize) -> (r: ObjMesh<'_>)
        requires
            i < self@.meshes.len(),
        ensures
            r.model() == self@.meshes[i as int],
            r.data_spec().positions() == self@.positions,
            r.data_spec().normals() == self@.normals,
            r.data_spec().uvs() == self@.uvs,
    {
        ObjMesh::new(&self.data, &self.meshes[i])
    }

    /// All submeshes, in file order.
    pub fn meshes(&self) -> (r: Vec<ObjMesh<'_>>)
        ensures
            r@.len() == self@.meshes.len(),
            forall|i: int|
                0 <= i < r@.len() ==> (#[trigger] r@[i]).model() == self@.meshes[i]
                    && r@[i].data_spec().positions() == self@.positions
                    && r@[i].data_spec().normals() == self@.normals
                    && r@[i].data_spec().uvs() == self@.uvs,
    {
        let mut out: Vec<ObjMesh<'_>> = Vec::new();
        let mut i: usize = 0;
        while i < self.meshes.len()
            invariant
                0 <= i <= self.meshes@.len(),
                out@.len() == i,
                forall|j: int|
                    0 <= j < i ==> (#[trigger] out@[j]).model() == self@.meshes[j]
                        && out@[j].data_spec() == self.data,
            decreases self.meshes@.len() - i,
        {
            out.push(ObjMesh::new(&self.data, &self.meshes[i]));
            i = i + 1;
        }
        out
    }
}

} // verus!
