//! Reading Wavefront OBJ geometry: a document of attribute arrays and
//! submeshes, and triangulated, deduplicated render buffers built from it.

pub mod error;
pub mod faces;
pub mod geometry;
pub mod obj;
pub mod statement;
pub mod text;
pub mod trimesh;

pub use error::{Context, ErrorKind, WobjError};
pub use faces::{Faces, Shape};
pub use geometry::{Scalar, Vector2, Vector3, VertexData};
pub use obj::{MeshData, Obj, ObjMesh};
pub use trimesh::{Indicies, Vertices};
