//! The failures that decoding and triangulating can report.

use vstd::prelude::*;

verus! {

/// The broad class of a failure.
#[derive(Clone, Copy, Debug, PartialEq, Eq, Structural)]
pub enum ErrorKind {
    /// The input itself is at fault: an unknown or malformed buffer, a
    /// polygon that cannot be triangulated.
    InvalidInput,
    /// The input asks for more than the hard ceiling on triangles.
    ResourceLimit,
    /// The decoder handed back something inconsistent.
    Internal,
}

/// A failure of the mesh core.
#[derive(Clone, Copy, Debug, PartialEq, Eq, Structural)]
pub enum MeshError {
    /// No hint and no heuristic names a format for the buffer.
    UnsupportedFormat,
    /// The buffer fails the structural check of its format.
    InvalidFile,
    /// The decoder could not read the buffer.
    ParseFailed,
    /// The decoded mesh has a hole, a zero-area face or a flipped face.
    InvalidMesh,
    /// A decoded face names a vertex that the decoded mesh does not hold.
    CorruptMesh,
    /// The mesh holds more triangles than `MAX_TRIANGLES`.
    TooManyTriangles,
    /// The polygon has fewer than three corners.
    TooFewVertices,
    /// The polygon names a vertex outside the vertex pool.
    VertexOutOfRange,
    /// No ear was found within the attempt budget.
    NonSimplePolygon,
}

impl MeshError {
    /// The class this failure belongs to.
    pub open spec fn spec_kind(self) -> ErrorKind {
        match self {
            MeshError::TooManyTriangles => ErrorKind::ResourceLimit,
            MeshError::CorruptMesh => ErrorKind::Internal,
            _ => ErrorKind::InvalidInput,
        }
    }

    /// The short description shown to a user.
    pub open spec fn spec_message(self) -> Seq<char> {
        match self {
            MeshError::UnsupportedFormat => "unsupported model format"@,
            MeshError::InvalidFile => "invalid model file"@,
            MeshError::ParseFailed => "failed to parse STL file"@,
            MeshError::InvalidMesh => "invalid STL mesh"@,
            MeshError::CorruptMesh => "decoded mesh is inconsistent"@,
            MeshError::TooManyTriangles => "model has too many triangles"@,
            MeshError::TooFewVertices => "cannot triangulate polygon with less than 3 vertices"@,
            MeshError::VertexOutOfRange => "polygon refers to a vertex that does not exist"@,
            MeshError::NonSimplePolygon => "failed to triangulate polygon: possible non-simple polygon"@,
        }
    }

    /// The class this failure belongs to.
    pub fn kind(&self) -> (kind: ErrorKind)
        ensures
            kind == self.spec_kind(),
    {
        match self {
            MeshError::TooManyTriangles => ErrorKind::ResourceLimit,
            MeshError::CorruptMesh => ErrorKind::Internal,
            _ => ErrorKind::InvalidInput,
        }
    }

    /// The short description shown to a user.
    pub fn message(&self) -> (text: &'static str)
        ensures
            text@ == self.spec_message(),
    {
        match self {
            MeshError::UnsupportedFormat => "unsupported model format",
            MeshError::InvalidFile => "invalid model file",
            MeshError::ParseFailed => "failed to parse STL file",
            MeshError::InvalidMesh => "invalid STL mesh",
            MeshError::CorruptMesh => "decoded mesh is inconsistent",
            MeshError::TooManyTriangles => "model has too many triangles",
            MeshError::TooFewVertices => "cannot triangulate polygon with less than 3 vertices",
            MeshError::VertexOutOfRange => "polygon refers to a vertex that does not exist",
            MeshError::NonSimplePolygon => "failed to triangulate polygon: possible non-simple polygon",
        }
    }
}

} // verus!
