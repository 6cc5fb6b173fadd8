use slicer_rs::error::{ErrorKind, MeshError};

#[test]
fn failures_fall_into_three_classes() {
    assert_eq!(MeshError::UnsupportedFormat.kind(), ErrorKind::InvalidInput);
    assert_eq!(MeshError::InvalidFile.kind(), ErrorKind::InvalidInput);
    assert_eq!(MeshError::ParseFailed.kind(), ErrorKind::InvalidInput);
    assert_eq!(MeshError::InvalidMesh.kind(), ErrorKind::InvalidInput);
    assert_eq!(MeshError::TooFewVertices.kind(), ErrorKind::InvalidInput);
    assert_eq!(MeshError::VertexOutOfRange.kind(), ErrorKind::InvalidInput);
    assert_eq!(MeshError::NonSimplePolygon.kind(), ErrorKind::InvalidInput);
    assert_eq!(MeshError::TooManyTriangles.kind(), ErrorKind::ResourceLimit);
    assert_eq!(MeshError::CorruptMesh.kind(), ErrorKind::Internal);
}

#[test]
fn failures_describe_themselves() {
    assert_eq!(MeshError::UnsupportedFormat.message(), "unsupported model format");
    assert_eq!(MeshError::InvalidFile.message(), "invalid model file");
    assert_eq!(MeshError::ParseFailed.message(), "failed to parse STL file");
    assert_eq!(MeshError::InvalidMesh.message(), "invalid STL mesh");
    assert_eq!(MeshError::CorruptMesh.message(), "decoded mesh is inconsistent");
    assert_eq!(MeshError::TooManyTriangles.message(), "model has too many triangles");
    assert_eq!(
        MeshError::TooFewVertices.message(),
        "cannot triangulate polygon with less than 3 vertices"
    );
    assert_eq!(
        MeshError::VertexOutOfRange.message(),
        "polygon refers to a vertex that does not exist"
    );
    assert_eq!(
        MeshError::NonSimplePolygon.message(),
        "failed to triangulate polygon: possible non-simple polygon"
    );
}
