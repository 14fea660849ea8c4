use wobj::faces::{resolve_index, Shape};
use wobj::obj::Obj;
use wobj::{Context, ErrorKind, Faces, Indicies, Scalar, Vector2, Vector3};

fn text(s: &Scalar) -> String {
    String::from_utf8(s.text.clone()).unwrap()
}

fn coords3(v: &Vector3) -> [String; 3] {
    [text(&v.x), text(&v.y), text(&v.z)]
}

fn coords2(v: &Vector2) -> [String; 2] {
    [text(&v.x), text(&v.y)]
}

fn strs3(a: &str, b: &str, c: &str) -> [String; 3] {
    [a.to_string(), b.to_string(), c.to_string()]
}

fn parse(s: &str) -> Obj {
    Obj::parse(s.as_bytes()).unwrap()
}

fn error_kind(s: &str) -> ErrorKind {
    Obj::parse(s.as_bytes()).unwrap_err().kind
}

#[test]
fn single_triangle_scenario() {
    let obj = parse("v 0 0 0\nv 1 0 0\nv 1 1 0\nf 1 2 3\n");
    assert_eq!(obj.mesh_count(), 1);
    let mesh = obj.mesh(0);
    assert_eq!(mesh.faces(), &Faces::V(vec![vec![0, 1, 2]]));
    let (indices, vertices) = mesh.triangulate().unwrap();
    assert_eq!(indices, Indicies(vec![0, 1, 2]));
    let positions: Vec<[String; 3]> = vertices.positions.iter().map(coords3).collect();
    assert_eq!(
        positions,
        vec![strs3("0", "0", "0"), strs3("1", "0", "0"), strs3("1", "1", "0")]
    );
    assert!(vertices.normals.is_none());
    assert!(vertices.uvs.is_none());
}

#[test]
fn relative_indices_scenario() {
    let obj = parse("v 0 0 0\nv 1 0 0\nv 1 1 0\nf -1 -2 -3\n");
    assert_eq!(obj.mesh(0).faces(), &Faces::V(vec![vec![2, 1, 0]]));
    assert_ne!(obj.mesh(0).faces(), &Faces::V(vec![vec![0, 1, 2]]));
}

#[test]
fn quad_scenario() {
    let obj = parse("v 0 0 0\nv 1 0 0\nv 1 1 0\nv 0 1 0\nf 1 2 3 4\n");
    let (indices, vertices) = obj.mesh(0).triangulate().unwrap();
    assert_eq!(indices, Indicies(vec![0, 1, 2, 0, 2, 3]));
    assert_eq!(vertices.positions.len(), 4);
}

#[test]
fn shape_change_scenario() {
    let src = "v 0 0 0\nv 1 0 0\nv 1 1 0\nvt 0 0\nvt 1 0\nvt 1 1\nf 1/2 2/3 3/1\nf 1 2 3\n";
    let err = Obj::parse(src.as_bytes()).unwrap_err();
    assert_eq!(err.kind, ErrorKind::InconsistentFaceShape);
    assert_eq!(err.context, Context::ElementFace);
}

#[test]
fn shape_change_fails_for_every_pair() {
    let points = ["1 2 3", "1/1 2/2 3/3", "1//1 2//2 3//3", "1/1/1 2/2/2 3/3/3"];
    let header = "v 0 0 0\nv 1 0 0\nv 1 1 0\nvt 0 0\nvt 1 0\nvt 1 1\nvn 0 0 1\nvn 0 0 1\nvn 0 0 1\n";
    for (i, first) in points.iter().enumerate() {
        for (j, second) in points.iter().enumerate() {
            let src = format!("{header}f {first}\nf {second}\n");
            let r = Obj::parse(src.as_bytes());
            if i == j {
                assert!(r.is_ok());
            } else {
                assert_eq!(r.unwrap_err().kind, ErrorKind::InconsistentFaceShape);
            }
        }
    }
}

#[test]
fn shape_may_change_after_a_breaking_statement() {
    let src = "v 0 0 0\nv 1 0 0\nv 1 1 0\nvt 0 0\nf 1/1 2/1 3/1\ng next\nf 1 2 3\n";
    let obj = parse(src);
    assert_eq!(obj.mesh_count(), 2);
    assert_eq!(obj.mesh(0).faces().kind(), Shape::VT);
    assert_eq!(obj.mesh(1).faces().kind(), Shape::V);
}

#[test]
fn index_resolution_values() {
    assert_eq!(resolve_index(1, 5), Some(0));
    assert_eq!(resolve_index(5, 5), Some(4));
    assert_eq!(resolve_index(-1, 5), Some(4));
    assert_eq!(resolve_index(-5, 5), Some(0));
    assert_eq!(resolve_index(-2, 7), Some(5));
    assert_eq!(resolve_index(-6, 5), None);
    assert_eq!(error_kind("v 0 0 0\nf 0 1 1\n"), ErrorKind::InvalidIndex);
}

#[test]
fn pentagon_fan() {
    let obj = parse("v 0 0 0\nv 1 0 0\nv 2 1 0\nv 1 2 0\nv 0 1 0\nf 1 2 3 4 5\n");
    let (indices, vertices) = obj.mesh(0).triangulate().unwrap();
    assert_eq!(indices.0.len(), 9);
    assert_eq!(indices, Indicies(vec![0, 1, 2, 0, 2, 3, 0, 3, 4]));
    for t in 0..3 {
        assert_eq!(indices.0[3 * t], 0);
    }
    assert_eq!(vertices.positions.len(), 5);
}

#[test]
fn shared_corner_is_stored_once() {
    let src = "v 0 0 0\nv 1 0 0\nv 1 1 0\nv 0 1 0\nf 1 2 3\nf 1 3 4\n";
    let (indices, vertices) = parse(src).mesh(0).triangulate().unwrap();
    assert_eq!(indices, Indicies(vec![0, 1, 2, 0, 2, 3]));
    assert_eq!(vertices.positions.len(), 4);
    assert_eq!(indices.0[0], indices.0[3]);
    assert_eq!(indices.0[2], indices.0[4]);
}

#[test]
fn dedup_keeps_first_seen_order_with_all_attributes() {
    let src = "v 0 0 0\nv 1 0 0\nv 1 1 0\nvt 0.5\nvt 0.25 0.75\nvn 0 0 1\nvn 0 1 0\n\
               f 3/2/1 1/1/2 2/2/1\nf 3/2/1 2/2/1 1/1/1\n";
    let (indices, vertices) = parse(src).mesh(0).triangulate().unwrap();
    assert_eq!(indices, Indicies(vec![0, 1, 2, 0, 2, 3]));
    let positions: Vec<[String; 3]> = vertices.positions.iter().map(coords3).collect();
    assert_eq!(
        positions,
        vec![strs3("1", "1", "0"), strs3("0", "0", "0"), strs3("1", "0", "0"), strs3("0", "0", "0")]
    );
    let normals: Vec<[String; 3]> = vertices.normals.unwrap().iter().map(coords3).collect();
    assert_eq!(
        normals,
        vec![strs3("0", "0", "1"), strs3("0", "1", "0"), strs3("0", "0", "1"), strs3("0", "0", "1")]
    );
    let uvs: Vec<[String; 2]> = vertices.uvs.unwrap().iter().map(coords2).collect();
    assert_eq!(uvs[0], ["0.25".to_string(), "0.75".to_string()]);
    assert_eq!(uvs[1], ["0.5".to_string(), "0".to_string()]);
}

#[test]
fn parsing_and_triangulating_are_deterministic() {
    let src = "# cube corner\nv 0 0 0\nv 1 0 0\nv 1 1 0\nv 0 1 0\nvn 0 0 1\no quad\nf 1//1 2//1 3//1 4//1\n";
    let a = parse(src);
    let b = parse(src);
    assert_eq!(a, b);
    let (ia, va) = a.mesh(0).triangulate().unwrap();
    let (ib, vb) = b.mesh(0).triangulate().unwrap();
    assert_eq!(ia, ib);
    assert_eq!(va, vb);
}

#[test]
fn attributes_and_breaking_statements() {
    let src = "mtllib scene.mtl\no first\nusemtl red\ng a b\ns 4\nv 0 0 0\nv 1 0 0\nv 1 1 0\n\
               f 1 2 3\no second\ns off\nf 3 2 1\n";
    let obj = parse(src);
    assert_eq!(obj.mesh_count(), 2);
    let m0 = obj.mesh(0);
    assert_eq!(m0.name(), Some("first"));
    assert_eq!(m0.material(), Some("red"));
    assert_eq!(m0.mtllib(), Some("scene.mtl"));
    assert_eq!(m0.groups(), &["a".to_string(), "b".to_string()]);
    assert_eq!(m0.smoothing(), 4);
    let m1 = obj.mesh(1);
    assert_eq!(m1.name(), Some("second"));
    assert_eq!(m1.material(), Some("red"));
    assert_eq!(m1.groups(), &["a".to_string(), "b".to_string()]);
    assert_eq!(m1.smoothing(), 0);
    assert_eq!(obj.meshes().len(), 2);
}

#[test]
fn statements_without_faces_make_no_submesh() {
    let obj = parse("o lonely\ng g1\nv 0 0 0\n");
    assert_eq!(obj.mesh_count(), 0);
    assert_eq!(obj.vertices().len(), 1);
}

#[test]
fn comments_blank_lines_and_unknown_keywords_are_skipped() {
    let src = "# header\n\n\r\nv 0 0 0\r\nvp 1 2 3\nv 1 0 0\n# middle\nv 1 1 0\nf 1 2 3";
    let obj = parse(src);
    assert_eq!(obj.vertices().len(), 3);
    assert_eq!(obj.mesh_count(), 1);
}

#[test]
fn empty_input_gives_empty_document() {
    let obj = parse("");
    assert_eq!(obj.mesh_count(), 0);
    assert!(obj.vertices().is_empty());
    assert!(obj.normals().is_empty());
    assert!(obj.uvs().is_empty());
}

#[test]
fn texture_coordinate_defaults_second_component() {
    let obj = parse("vt 0.5\nvt 1 2 3\n");
    let uvs: Vec<[String; 2]> = obj.uvs().iter().map(coords2).collect();
    assert_eq!(uvs, vec![["0.5".to_string(), "0".to_string()], ["1".to_string(), "2".to_string()]]);
}

#[test]
fn decimal_literals_are_kept_as_written() {
    let obj = parse("v -1.5e3 .25 +2.\nvn 1E-2 0 -0\n");
    assert_eq!(coords3(&obj.vertices()[0]), strs3("-1.5e3", ".25", "+2."));
    assert_eq!(coords3(&obj.normals()[0]), strs3("1E-2", "0", "-0"));
    assert_eq!(obj.data().vertex.len(), 1);
}

#[test]
fn malformed_geometry_errors() {
    assert_eq!(error_kind("v 1 2\n"), ErrorKind::MalformedGeometry);
    assert_eq!(error_kind("v 1 2 x\n"), ErrorKind::MalformedGeometry);
    assert_eq!(error_kind("vn 1  2 3\n"), ErrorKind::MalformedGeometry);
    assert_eq!(error_kind("vt x\n"), ErrorKind::MalformedGeometry);
    assert_eq!(error_kind("v 1e 2 3\n"), ErrorKind::MalformedGeometry);
}

#[test]
fn face_errors() {
    let header = "v 0 0 0\nv 1 0 0\nv 1 1 0\n";
    assert_eq!(error_kind(&format!("{header}f 1 2\n")), ErrorKind::TooFewFacePoints);
    assert_eq!(error_kind(&format!("{header}f 1 2 x\n")), ErrorKind::InvalidIndex);
    assert_eq!(error_kind(&format!("{header}f 1 2 \n")), ErrorKind::TooFewFacePoints);
    assert_eq!(error_kind(&format!("{header}f 1 2 0\n")), ErrorKind::InvalidIndex);
    assert_eq!(
        error_kind(&format!("{header}f 1/1 2 3\n")),
        ErrorKind::InconsistentFaceShape
    );
}

#[test]
fn zero_or_malformed_index_anywhere_fails() {
    let header = "v 0 0 0\nv 1 0 0\nv 1 1 0\nv 0 1 0\nvt 0 0\nvn 0 0 1\n";
    for face in [
        "0 1 2",
        "1 2 3 0",
        "1 2 3 4/0",
        "1/0 2/1 3/1",
        "1//0 2//1 3//1",
        "1/1/0 2/1/1 3/1/1",
        "1 2 3 x",
        "1 2 3.0",
        "1/ 2/ 3/",
        "1/1//1 2/1//1 3/1//1",
    ] {
        let e = Obj::parse(format!("{header}f {face}\n").as_bytes()).unwrap_err();
        assert_eq!(e.kind, ErrorKind::InvalidIndex, "{face}");
        assert_eq!(e.context, Context::ElementFace);
    }
    let e = Obj::parse(format!("{header}f 1/0 2/1 3/1\n").as_bytes()).unwrap_err();
    assert_eq!(e.detail, Some(Context::TextureIndex));
    let e = Obj::parse(format!("{header}f 1 2 3 0\n").as_bytes()).unwrap_err();
    assert_eq!(e.detail, Some(Context::VertexIndex));
    let e = Obj::parse(format!("{header}f 1//1 2//1 3//-2\n").as_bytes()).unwrap_err();
    assert_eq!(e.detail, Some(Context::NormalIndex));
}

#[test]
fn trailing_spaces_after_points_are_allowed() {
    let obj = parse("v 0 0 0\nv 1 0 0\nv 1 1 0\nf 1  2 3   \r\n");
    assert_eq!(obj.mesh(0).faces(), &Faces::V(vec![vec![0, 1, 2]]));
}

#[test]
fn negative_index_before_start_fails() {
    let e = Obj::parse(b"v 0 0 0\nv 1 0 0\nv 1 1 0\nf -1 -2 -4\n").unwrap_err();
    assert_eq!(e.kind, ErrorKind::InvalidIndex);
    assert_eq!(e.detail, Some(Context::VertexIndex));
}

#[test]
fn error_breadcrumb_and_message() {
    let e = Obj::parse(b"v 0 0 0\nv 1 0 0\nv 1 1 0\nvt 0 0\nf 1/0 2/1 3/1\n").unwrap_err();
    assert_eq!(e.breadcrumb(), vec!["element face", "texture index", "invalid index"]);
    assert_eq!(e.message(), "element face > texture index > invalid index");
    let e = Obj::parse(b"v 1 2\n").unwrap_err();
    assert_eq!(e.breadcrumb(), vec!["vertex geometry", "malformed geometry"]);
    assert_eq!(e.message(), "vertex geometry > malformed geometry");
}

#[test]
fn malformed_statement_errors() {
    let e = Obj::parse(b"v\n").unwrap_err();
    assert_eq!(e.kind, ErrorKind::MalformedStatement);
    assert_eq!(e.context, Context::Keyword);
    assert_eq!(error_kind("o \n"), ErrorKind::MalformedStatement);
    assert_eq!(error_kind("g \n"), ErrorKind::MalformedStatement);
    assert_eq!(error_kind("s x\n"), ErrorKind::MalformedStatement);
    assert_eq!(error_kind("s 4294967296\n"), ErrorKind::MalformedStatement);
    assert_eq!(error_kind(" v 0 0 0\n"), ErrorKind::MalformedStatement);
    let bad_utf8 = Obj::parse(b"usemtl \xff\xfe\n").unwrap_err();
    assert_eq!(bad_utf8.kind, ErrorKind::MalformedStatement);
    assert_eq!(bad_utf8.context, Context::AttributeMaterial);
    assert_eq!(error_kind("v 0 0 0\rv 1 1 1\n"), ErrorKind::MalformedStatement);
}

#[test]
fn error_offset_points_at_the_statement() {
    let e = Obj::parse(b"v 0 0 0\nv 1 2\n").unwrap_err();
    assert_eq!(e.offset, 8);
    assert_eq!(e.context.label(), "vertex geometry");
}

#[test]
fn utf8_names_are_decoded() {
    let obj = parse("o h\u{e9}llo w\u{f6}rld\nv 0 0 0\nf 1 1 1\n");
    assert_eq!(obj.mesh(0).name(), Some("h\u{e9}llo w\u{f6}rld"));
}

#[test]
fn out_of_range_index_fails_triangulation() {
    let obj = parse("v 0 0 0\nv 1 0 0\nf 1 2 5\n");
    let e = obj.mesh(0).triangulate().unwrap_err();
    assert_eq!(e.kind, ErrorKind::IndexOutOfRange);
    assert_eq!(e.context, Context::VertexLookup);
    assert_eq!(e.offset, 0);
    assert_eq!(e.message(), "vertex lookup > index out of range");

    let obj = parse("v 0 0 0\nv 1 0 0\nv 1 1 0\nvt 0 0\nf 1/1 2/2 3/1\n");
    let e = obj.mesh(0).triangulate().unwrap_err();
    assert_eq!(e.context, Context::UvLookup);

    let obj = parse("v 0 0 0\nv 1 0 0\nv 1 1 0\nf 1//1 2//1 3//1\n");
    let e = obj.mesh(0).triangulate().unwrap_err();
    assert_eq!(e.context, Context::NormalLookup);
}

#[test]
fn faces_len_and_is_empty() {
    let obj = parse("v 0 0 0\nv 1 0 0\nv 1 1 0\nf 1 2 3\nf 3 2 1\n");
    let faces = obj.mesh(0).faces();
    assert_eq!(faces.len(), 2);
    assert!(!faces.is_empty());
    assert!(Faces::new(Shape::VN).is_empty());
    assert_eq!(faces.polygon_len(1), 3);
    assert_eq!(faces.corner(1, 0), (2, 0, 0));
}
