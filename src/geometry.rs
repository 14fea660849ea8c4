use vstd::prelude::*;

verus! {

/// A coordinate, kept as the decimal literal the file wrote (for example
/// `-1.5e3`). Turning it into a floating-point value is left to the caller.
#[derive(Debug, Clone, PartialEq, Eq)]
pub struct Scalar {
    pub text: Vec<u8>,
}

impl View for Scalar {
    type V = Seq<u8>;

    open spec fn view(&self) -> Seq<u8> {
        self.text@
    }
}

impl Scalar {
    /// The literal's bytes.
    pub fn as_bytes(&self) -> (r: &[u8])
        ensures
            r@ == self@,
    {
        self.text.as_slice()
    }

    pub fn duplicate(&self) -> (r: Scalar)
        ensures
            r@ == self@,
    {
        let text = self.text.clone();
        assert(text@ =~= self.text@);
        Scalar { text }
    }
}

/// Three coordinates: a position or a normal.
#[derive(Debug, Clone, PartialEq, Eq)]
pub struct Vector3 {
    pub x: Scalar,
    pub y: Scalar,
    pub z: Scalar,
}

impl View for Vector3 {
    type V = (Seq<u8>, Seq<u8>, Seq<u8>);

    open spec fn view(&self) -> (Seq<u8>, Seq<u8>, Seq<u8>) {
        (self.x@, self.y@, self.z@)
    }
}

impl Vector3 {
    pub fn duplicate(&self) -> (r: Vector3)
        ensures
            r@ == self@,
    {
        Vector3 { x: self.x.duplicate(), y: self.y.duplicate(), z: self.z.duplicate() }
    }
}

/// Two coordinates: a texture coordinate.
#[derive(Debug, Clone, PartialEq, Eq)]
pub struct Vector2 {
    pub x: Scalar,
    pub y: Scalar,
}

impl View for Vector2 {
    type V = (Seq<u8>, Seq<u8>);

    open spec fn view(&self) -> (Seq<u8>, Seq<u8>) {
        (self.x@, self.y@)
    }
}

impl Vector2 {
    pub fn duplicate(&self) -> (r: Vector2)
        ensures
            r@ == self@,
    {
        Vector2 { x: self.x.duplicate(), y: self.y.duplicate() }
    }
}

/// The attribute arrays of a document: positions, normals and texture
/// coordinates, in the order the file wrote them.
#[derive(Debug, Clone, PartialEq, Eq)]
pub struct VertexData {
    pub vertex: Vec<Vector3>,
    pub normal: Vec<Vector3>,
    pub texture: Vec<Vector2>,
}

impl VertexData {
    pub open spec fn positions(&self) -> Seq<(Seq<u8>, Seq<u8>, Seq<u8>)> {
        self.vertex@.map_values(|p: Vector3| p@)
    }

    pub open spec fn normals(&self) -> Seq<(Seq<u8>, Seq<u8>, Seq<u8>)> {
        self.normal@.map_values(|p: Vector3| p@)
    }

    pub open spec fn uvs(&self) -> Seq<(Seq<u8>, Seq<u8>)> {
        self.texture@.map_values(|p: Vector2| p@)
    }

    pub fn new() -> (r: VertexData)
        ensures
            r.vertex@.len() == 0,
            r.normal@.len() == 0,
            r.texture@.len() == 0,
    {
        VertexData { vertex: Vec::new(), normal: Vec::new(), texture: Vec::new() }
    }
}

} // verus!
