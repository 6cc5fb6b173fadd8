//! The STL format, binary and text.
//!
//! A binary buffer is an 80-byte header, a little-endian 32-bit triangle
//! count, and one 50-byte record per triangle. A text buffer begins with
//! `solid` and holds `facet` blocks of three `vertex` lines each.

use crate::error::MeshError;
use crate::model::{MeshParser, Triangle};
use crate::model::{binary_len, declared_count, MAX_TRIANGLES, BINARY_PREFIX_LEN, BINARY_RECORD_LEN, TRAILING_SLACK};
use crate::scan::{begins_with, contains, occurs, is_utf8, read_le_u32, starts_with};
use vstd::prelude::*;
use vstd::string::StringSliceAdditionalSpecFns;
use vstd::utf8::valid_utf8;

verus! {

/// The whole buffer reads as text of the format: it begins with `solid` and
/// is UTF-8 that holds both `facet` and `vertex`.
pub open spec fn reads_as_text(bytes: Seq<u8>) -> bool {
    &&& begins_with(bytes, "solid".spec_bytes())
    &&& valid_utf8(bytes)
    &&& occurs(bytes, "facet".spec_bytes())
    &&& occurs(bytes, "vertex".spec_bytes())
}

/// The buffer has the length of a binary buffer of the count it declares,
/// with fewer than `TRAILING_SLACK` bytes to spare.
pub open spec fn fits_declared_count(bytes: Seq<u8>) -> bool {
    &&& bytes.len() >= BINARY_PREFIX_LEN
    &&& declared_count(bytes) <= MAX_TRIANGLES
    &&& binary_len(declared_count(bytes)) <= bytes.len() < binary_len(declared_count(bytes))
        + TRAILING_SLACK
}

/// The buffers that pass the structural check: at least a binary prefix
/// long, and either text of the format or of the length their count asks for.
pub open spec fn well_formed(bytes: Seq<u8>) -> bool {
    bytes.len() >= BINARY_PREFIX_LEN && (reads_as_text(bytes) || fits_declared_count(bytes))
}

/// Tells whether the buffer passes the structural check of the format.
pub fn validate_bytes(bytes: &[u8]) -> (valid: bool)
    ensures
        valid == well_formed(bytes@),
{
    if bytes.len() < BINARY_PREFIX_LEN {
        return false;
    }
    if starts_with(bytes, "solid".as_bytes()) && is_utf8(bytes) && contains(
        bytes,
        "facet".as_bytes(),
    ) && contains(bytes, "vertex".as_bytes()) {
        return true;
    }
    match read_le_u32(bytes, BINARY_PREFIX_LEN - 4) {
        Some(count) => {
            if count > MAX_TRIANGLES {
                return false;
            }
            let expected: usize = BINARY_PREFIX_LEN + (count as usize) * BINARY_RECORD_LEN;
            bytes.len() >= expected && bytes.len() - expected < TRAILING_SLACK
        },
        None => false,
    }
}

/// The vertices and faces of the mesh that `stl_io::read_stl` reads from a
/// buffer, or nothing where it fails. A vertex is the bit patterns of its
/// coordinates; a face is the positions of its corners among the vertices.
pub uninterp spec fn decoded_mesh(bytes: Seq<u8>) -> Option<(Seq<[u32; 3]>, Seq<[usize; 3]>)>;

/// The vertices that a decoded mesh holds, as bit patterns.
pub uninterp spec fn mesh_vertices(mesh: stl_io::IndexedMesh) -> Seq<[u32; 3]>;

/// The faces that a decoded mesh holds, as positions among its vertices.
pub uninterp spec fn mesh_faces(mesh: stl_io::IndexedMesh) -> Seq<[usize; 3]>;

/// What `stl_io::IndexedMesh::validate` accepts: a mesh without holes,
/// without zero-area faces, and with all faces turned the same way.
pub uninterp spec fn mesh_closed(vertices: Seq<[u32; 3]>, faces: Seq<[usize; 3]>) -> bool;

/// Every corner of every face is the position of a vertex.
pub open spec fn faces_in_range(vertices: Seq<[u32; 3]>, faces: Seq<[usize; 3]>) -> bool {
    forall|i: int, k: int|
        0 <= i < faces.len() && 0 <= k < 3 ==> (#[trigger] faces[i][k]) < vertices.len()
}

/// The triangle that a face stands for.
pub open spec fn triangle_of(vertices: Seq<[u32; 3]>, face: [usize; 3]) -> Triangle {
    Triangle {
        vertices: [
            vertices[face[0] as int],
            vertices[face[1] as int],
            vertices[face[2] as int],
        ],
    }
}

/// The triangles that the faces stand for, in the order of the faces.
pub open spec fn triangles_of(vertices: Seq<[u32; 3]>, faces: Seq<[usize; 3]>) -> Seq<Triangle> {
    Seq::new(faces.len(), |i: int| triangle_of(vertices, faces[i]))
}

#[verifier::external_type_specification]
#[verifier::external_body]
pub struct ExIndexedMesh(stl_io::IndexedMesh);

#[verifier::external_type_specification]
#[verifier::external_body]
pub struct ExIoError(std::io::Error);

/// `stl_io::read_stl` on an in-memory buffer. It reads text or binary,
/// whichever the buffer is, and what it returns depends on the bytes alone.
#[verifier::external_body]
fn read_stl(bytes: &[u8]) -> (read: Result<stl_io::IndexedMesh, std::io::Error>)
    ensures
        match read {
            Ok(mesh) => decoded_mesh(bytes@) == Some((mesh_vertices(mesh), mesh_faces(mesh))),
            Err(_) => decoded_mesh(bytes@).is_none(),
        },
{
    let mut cursor = std::io::Cursor::new(bytes);
    stl_io::read_stl(&mut cursor)
}

/// The field `vertices` of an `stl_io::IndexedMesh`, each coordinate handed
/// out as its bit pattern.
#[verifier::external_body]
fn vertices_of(mesh: &stl_io::IndexedMesh) -> (vertices: Vec<[u32; 3]>)
    ensures
        vertices@ == mesh_vertices(*mesh),
{
    mesh.vertices.iter().map(|vertex| vertex.0.map(|c| c.to_bits())).collect()
}

/// The field `faces` of an `stl_io::IndexedMesh`, each face handed out as
/// the positions of its corners.
#[verifier::external_body]
fn faces_of(mesh: &stl_io::IndexedMesh) -> (faces: Vec<[usize; 3]>)
    ensures
        faces@ == mesh_faces(*mesh),
{
    mesh.faces.iter().map(|face| face.vertices).collect()
}

/// `stl_io::IndexedMesh::validate`. It looks up every corner of every face
/// among the vertices, so the faces must be in range; whether it accepts
/// depends on the vertices and the faces alone.
#[verifier::external_body]
fn validate_mesh(mesh: &stl_io::IndexedMesh) -> (checked: Result<(), std::io::Error>)
    requires
        faces_in_range(mesh_vertices(*mesh), mesh_faces(*mesh)),
    ensures
        checked.is_ok() == mesh_closed(mesh_vertices(*mesh), mesh_faces(*mesh)),
{
    mesh.validate()
}

/// Resolves faces into triangles, in order; fails where a face names a
/// vertex that is not there.
pub fn triangles_from(vertices: &[[u32; 3]], faces: &[[usize; 3]]) -> (resolved: Result<
    Vec<Triangle>,
    MeshError,
>)
    ensures
        resolved.is_ok() == faces_in_range(vertices@, faces@),
        resolved matches Ok(triangles) ==> triangles@ == triangles_of(vertices@, faces@),
        resolved matches Err(error) ==> error == MeshError::CorruptMesh,
{
    let mut triangles: Vec<Triangle> = Vec::new();
    let mut i: usize = 0;
    while i < faces.len()
        invariant
            i <= faces.len(),
            triangles@.len() == i,
            forall|j: int, k: int|
                0 <= j < i && 0 <= k < 3 ==> (#[trigger] faces@[j][k]) < vertices@.len(),
            forall|j: int| 0 <= j < i ==> triangles@[j] == triangle_of(vertices@, faces@[j]),
        decreases faces.len() - i,
    {
        let face = faces[i];
        let a: usize = face[0];
        let b: usize = face[1];
        let c: usize = face[2];
        if a >= vertices.len() || b >= vertices.len() || c >= vertices.len() {
            return Err(MeshError::CorruptMesh);
        }
        triangles.push(Triangle { vertices: [vertices[a], vertices[b], vertices[c]] });
        i += 1;
    }
    assert(triangles@ =~= triangles_of(vertices@, faces@));
    Ok(triangles)
}

/// The decoder of the STL format.
pub struct STlParser;

impl MeshParser for STlParser {
    open spec fn decoded(bytes: Seq<u8>) -> Result<Seq<Triangle>, MeshError> {
        match decoded_mesh(bytes) {
            None => Err(MeshError::ParseFailed),
            Some((vertices, faces)) => if !faces_in_range(vertices, faces) {
                Err(MeshError::CorruptMesh)
            } else if !mesh_closed(vertices, faces) {
                Err(MeshError::InvalidMesh)
            } else {
                Ok(triangles_of(vertices, faces))
            },
        }
    }

    fn parse(bytes: &[u8]) -> (parsed: Result<Vec<Triangle>, MeshError>) {
        let mesh = match read_stl(bytes) {
            Ok(mesh) => mesh,
            Err(_) => {
                return Err(MeshError::ParseFailed);
            },
        };
        let vertices = vertices_of(&mesh);
        let faces = faces_of(&mesh);
        let triangles = match triangles_from(vertices.as_slice(), faces.as_slice()) {
            Ok(triangles) => triangles,
            Err(error) => {
                return Err(error);
            },
        };
        match validate_mesh(&mesh) {
            Ok(_) => Ok(triangles),
            Err(_) => Err(MeshError::InvalidMesh),
        }
    }
}

/// A buffer shorter than the count it declares asks for fails the
/// structural check, unless it reads as text.
pub proof fn lemma_truncated_binary_is_rejected(bytes: Seq<u8>)
    requires
        bytes.len() < binary_len(declared_count(bytes)),
        !reads_as_text(bytes),
    ensures
        !well_formed(bytes),
{
}

} // verus!
