use wobj::faces::{parse_face, parse_face_point, Corner, RawPoint, Shape};
use wobj::statement::parse_groups;
use wobj::{Context, ErrorKind};

/// Parses a face against three positions, three texture coordinates and
/// three normals.
fn face(text: &str) -> Result<(Shape, Vec<Corner>), (ErrorKind, Option<Context>)> {
    parse_face(text.as_bytes(), 0, 3, 3, 3).map(|(shape, poly, _)| (shape, poly))
}

/// Parses a face point that must take up the whole text.
fn point(text: &str) -> Option<RawPoint> {
    match parse_face_point(text.as_bytes(), 0) {
        Ok((pt, end)) if end == text.len() => Some(pt),
        _ => None,
    }
}

/// Parses group names that must take up the whole text.
fn groups(text: &str) -> Option<Vec<String>> {
    match parse_groups(text.as_bytes(), 0) {
        Some((gs, end)) if end == text.len() => Some(gs),
        _ => None,
    }
}

fn v(v: i64) -> RawPoint {
    RawPoint { v, t: None, n: None }
}

fn vt(v: i64, t: i64) -> RawPoint {
    RawPoint { v, t: Some(t), n: None }
}

fn vn(v: i64, n: i64) -> RawPoint {
    RawPoint { v, t: None, n: Some(n) }
}

fn vtn(v: i64, t: i64, n: i64) -> RawPoint {
    RawPoint { v, t: Some(t), n: Some(n) }
}

#[test]
fn obj_face_parsing() {
    assert_eq!(
        face("1 2 3").unwrap(),
        (Shape::V, vec![(0, 0, 0), (1, 0, 0), (2, 0, 0)])
    );
    assert_eq!(
        face("1/3 2/2 3/1").unwrap(),
        (Shape::VT, vec![(0, 2, 0), (1, 1, 0), (2, 0, 0)])
    );
    assert_eq!(
        face("1//3 2//2 3//1").unwrap(),
        (Shape::VN, vec![(0, 0, 2), (1, 0, 1), (2, 0, 0)])
    );
    assert_eq!(
        face("1/2/3 2/3/1 3/1/2").unwrap(),
        (Shape::VTN, vec![(0, 1, 2), (1, 2, 0), (2, 0, 1)])
    );
    assert_eq!(
        face("-1 -2 -3").unwrap(),
        (Shape::V, vec![(2, 0, 0), (1, 0, 0), (0, 0, 0)])
    );

    assert!(face(" ").is_err());
    assert!(face("1").is_err());
    assert!(face("1 2").is_err());

    assert_ne!(
        face("1 2 3").unwrap(),
        (Shape::V, vec![(2, 0, 0), (1, 0, 0), (0, 0, 0)])
    );
}

#[test]
fn parser_face_parsing() {
    assert_eq!(
        face("1 2 3").unwrap(),
        (Shape::V, vec![(0, 0, 0), (1, 0, 0), (2, 0, 0)])
    );
    assert_eq!(
        face("1/3 2/2 3/1").unwrap(),
        (Shape::VT, vec![(0, 2, 0), (1, 1, 0), (2, 0, 0)])
    );
    assert_eq!(
        face("1//3 2//2 3//1").unwrap(),
        (Shape::VN, vec![(0, 0, 2), (1, 0, 1), (2, 0, 0)])
    );
    assert_eq!(
        face("1/2/3 2/3/1 3/1/2").unwrap(),
        (Shape::VTN, vec![(0, 1, 2), (1, 2, 0), (2, 0, 1)])
    );
    assert_eq!(
        face("-1 -2 -3").unwrap(),
        (Shape::V, vec![(2, 0, 0), (1, 0, 0), (0, 0, 0)])
    );

    assert!(face(" ").is_err());
    assert!(face("1").is_err());
    assert!(face("1 2").is_err());

    assert_ne!(
        face("1 2 3").unwrap(),
        (Shape::V, vec![(2, 0, 0), (1, 0, 0), (0, 0, 0)])
    );
}

#[test]
fn obj_face_point_parsing() {
    // Check correct
    assert_eq!(point("1").unwrap(), v(1));
    assert_eq!(point("1/2").unwrap(), vt(1, 2));
    assert_eq!(point("1//3").unwrap(), vn(1, 3));
    assert_eq!(point("1/2/3").unwrap(), vtn(1, 2, 3));

    // Check incorrect
    assert!(point("1/").is_none());
    assert!(point("1//").is_none());
    assert!(point("/2/").is_none());
    assert!(point("//3").is_none());
    assert!(point("/2/3").is_none());
    assert!(point("//").is_none());
    assert!(point("/").is_none());
    assert!(point("").is_none());
    assert!(point("1/e/3").is_none());
    assert!(point("1/2/e").is_none());
    assert!(point("1//e").is_none());
    assert!(point("1/e").is_none());
    assert!(point("1.0").is_none());
    assert!(point("0").is_none());
}

#[test]
fn parser_face_point_parsing() {
    // Check correct
    assert_eq!(point("1").unwrap(), v(1));
    assert_eq!(point("1/2").unwrap(), vt(1, 2));
    assert_eq!(point("1//3").unwrap(), vn(1, 3));
    assert_eq!(point("1/2/3").unwrap(), vtn(1, 2, 3));

    // Check incorrect
    assert!(point("1/").is_none());
    assert!(point("1//").is_none());
    assert!(point("/2/").is_none());
    assert!(point("//3").is_none());
    assert!(point("/2/3").is_none());
    assert!(point("//").is_none());
    assert!(point("/").is_none());
    assert!(point("").is_none());
    assert!(point("1/e/3").is_none());
    assert!(point("1/2/e").is_none());
    assert!(point("1//e").is_none());
    assert!(point("1/e").is_none());
    assert!(point("1.0").is_none());
    assert!(point("0").is_none());
}

#[test]
fn obj_group_parsing() {
    assert_eq!(groups("group1"), Some(vec!["group1".to_string()]));
    assert_eq!(
        groups("group1 group2 group3"),
        Some(vec![
            "group1".to_string(),
            "group2".to_string(),
            "group3".to_string()
        ])
    );

    assert!(groups(" ").is_none());
}

#[test]
fn parser_group_parsing() {
    assert_eq!(groups("group1"), Some(vec!["group1".to_string()]));
    assert_eq!(
        groups("group1 group2 group3"),
        Some(vec![
            "group1".to_string(),
            "group2".to_string(),
            "group3".to_string()
        ])
    );

    assert!(groups(" ").is_none());
}
