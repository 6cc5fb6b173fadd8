use slicer_rs::error::MeshError;
use slicer_rs::intake::decode;
use slicer_rs::model::stl::{triangles_from, STlParser};
use slicer_rs::model::{Format, MeshParser, Triangle};

type Corner = [f32; 3];

const CUBE: [Corner; 8] = [
    [0.0, 0.0, 0.0],
    [1.0, 0.0, 0.0],
    [1.0, 1.0, 0.0],
    [0.0, 1.0, 0.0],
    [0.0, 0.0, 1.0],
    [1.0, 0.0, 1.0],
    [1.0, 1.0, 1.0],
    [0.0, 1.0, 1.0],
];

// Two triangles per side, every side seen counter-clockwise from outside.
const CUBE_FACES: [[usize; 3]; 12] = [
    [0, 2, 1],
    [0, 3, 2],
    [4, 5, 6],
    [4, 6, 7],
    [0, 1, 5],
    [0, 5, 4],
    [3, 7, 6],
    [3, 6, 2],
    [0, 4, 7],
    [0, 7, 3],
    [1, 2, 6],
    [1, 6, 5],
];

fn cube(shift: Corner, scale: f32) -> Vec<[Corner; 3]> {
    CUBE_FACES
        .iter()
        .map(|face| {
            let corner = |k: usize| {
                let v = CUBE[face[k]];
                [v[0] * scale + shift[0], v[1] * scale + shift[1], v[2] * scale + shift[2]]
            };
            [corner(0), corner(1), corner(2)]
        })
        .collect()
}

fn binary_stl(triangles: &[[Corner; 3]]) -> Vec<u8> {
    let mut bytes = vec![0u8; 80];
    bytes.extend_from_slice(&(triangles.len() as u32).to_le_bytes());
    for triangle in triangles {
        for _ in 0..3 {
            bytes.extend_from_slice(&0f32.to_le_bytes());
        }
        for corner in triangle {
            for coordinate in corner {
                bytes.extend_from_slice(&coordinate.to_le_bytes());
            }
        }
        bytes.extend_from_slice(&[0, 0]);
    }
    bytes
}

fn text_stl(triangles: &[[Corner; 3]]) -> Vec<u8> {
    let mut text = String::from("solid part\n");
    for triangle in triangles {
        text.push_str("  facet normal 0 0 0\n    outer loop\n");
        for corner in triangle {
            text.push_str(&format!("      vertex {} {} {}\n", corner[0], corner[1], corner[2]));
        }
        text.push_str("    endloop\n  endfacet\n");
    }
    text.push_str("endsolid part\n");
    text.into_bytes()
}

fn bits(triangle: &[Corner; 3]) -> Triangle {
    Triangle { vertices: triangle.map(|corner| corner.map(|c| c.to_bits())) }
}

fn signed_volume(triangle: &Triangle) -> f32 {
    let v = triangle.vertices.map(|corner| corner.map(f32::from_bits));
    let (a, b, c) = (v[0], v[1], v[2]);
    let cross = [
        b[1] * c[2] - b[2] * c[1],
        b[2] * c[0] - b[0] * c[2],
        b[0] * c[1] - b[1] * c[0],
    ];
    (a[0] * cross[0] + a[1] * cross[1] + a[2] * cross[2]) / 6.0
}

fn compensated_sum(triangles: &[Triangle]) -> f64 {
    let mut sum = 0.0f64;
    let mut compensation = 0.0f64;
    for triangle in triangles {
        let y = signed_volume(triangle) as f64 - compensation;
        let t = sum + y;
        compensation = (t - sum) - y;
        sum = t;
    }
    sum
}

#[test]
fn binary_cube_decodes_to_its_twelve_triangles_in_file_order() {
    let source = cube([0.0, 0.0, 0.0], 1.0);
    let triangles = STlParser::parse(&binary_stl(&source)).unwrap();
    assert_eq!(triangles.len(), 12);
    for (decoded, written) in triangles.iter().zip(source.iter()) {
        assert_eq!(*decoded, bits(written));
    }
    assert_eq!(
        triangles[0].vertices,
        [[0, 0, 0], [0x3f80_0000, 0x3f80_0000, 0], [0x3f80_0000, 0, 0]]
    );
}

#[test]
fn text_cube_decodes_to_its_twelve_triangles_in_file_order() {
    let source = cube([-2.5, 4.0, 0.25], 2.0);
    let triangles = STlParser::parse(&text_stl(&source)).unwrap();
    assert_eq!(triangles.len(), 12);
    for (decoded, written) in triangles.iter().zip(source.iter()) {
        assert_eq!(*decoded, bits(written));
    }
}

#[test]
fn unit_cube_has_volume_one() {
    let triangles = decode(None, &binary_stl(&cube([0.0, 0.0, 0.0], 1.0))).unwrap();
    assert_eq!(triangles.len(), 12);
    assert!((compensated_sum(&triangles).abs() - 1.0).abs() < 1e-6);

    let moved = decode(None, &binary_stl(&cube([3.0, -7.0, 11.0], 1.0))).unwrap();
    assert!((compensated_sum(&moved).abs() - 1.0).abs() < 1e-3);
}

#[test]
fn unit_cube_keeps_its_volume_under_reordering_and_flipping() {
    let source = cube([0.0, 0.0, 0.0], 1.0);

    let mut reversed = source.clone();
    reversed.reverse();
    let triangles = decode(None, &binary_stl(&reversed)).unwrap();
    assert!((compensated_sum(&triangles).abs() - 1.0).abs() < 1e-6);

    let mut rotated = source.clone();
    rotated.rotate_left(5);
    let triangles = decode(None, &binary_stl(&rotated)).unwrap();
    assert!((compensated_sum(&triangles).abs() - 1.0).abs() < 1e-6);

    let flipped: Vec<[Corner; 3]> = source.iter().map(|t| [t[0], t[2], t[1]]).collect();
    let triangles = decode(None, &binary_stl(&flipped)).unwrap();
    assert!(compensated_sum(&triangles) < 0.0);
    assert!((compensated_sum(&triangles).abs() - 1.0).abs() < 1e-6);
}

#[test]
fn buffer_that_cannot_be_read_fails_to_parse() {
    assert_eq!(STlParser::parse(&[]), Err(MeshError::ParseFailed));
    assert_eq!(STlParser::parse(b"solid part\nfacet normal 0 0\n"), Err(MeshError::ParseFailed));
    let mut truncated = binary_stl(&cube([0.0, 0.0, 0.0], 1.0));
    truncated.truncate(84 + 11 * 50 + 49);
    assert_eq!(STlParser::parse(&truncated), Err(MeshError::ParseFailed));
}

#[test]
fn open_mesh_is_invalid() {
    let mut open = cube([0.0, 0.0, 0.0], 1.0);
    open.pop();
    assert_eq!(STlParser::parse(&binary_stl(&open)), Err(MeshError::InvalidMesh));
    let single = [[[0.0, 0.0, 0.0], [1.0, 0.0, 0.0], [0.0, 1.0, 0.0]]];
    assert_eq!(STlParser::parse(&text_stl(&single)), Err(MeshError::InvalidMesh));
}

#[test]
fn mesh_with_a_flat_face_is_invalid() {
    let mut flat = cube([0.0, 0.0, 0.0], 1.0);
    flat.push([[0.0, 0.0, 0.0], [1.0, 1.0, 1.0], [2.0, 2.0, 2.0]]);
    assert_eq!(STlParser::parse(&binary_stl(&flat)), Err(MeshError::InvalidMesh));
}

#[test]
fn format_decodes_with_its_own_decoder() {
    let bytes = binary_stl(&cube([0.0, 0.0, 0.0], 1.0));
    assert_eq!(Format::STL.parse(&bytes), STlParser::parse(&bytes));
    assert_eq!(Format::STL.parse(&[]), Err(MeshError::ParseFailed));
}

#[test]
fn faces_are_resolved_in_order() {
    let vertices = [[1u32, 2, 3], [4, 5, 6], [7, 8, 9], [10, 11, 12]];
    let faces = [[0usize, 1, 2], [3, 2, 1], [2, 2, 0]];
    assert_eq!(
        triangles_from(&vertices, &faces),
        Ok(vec![
            Triangle { vertices: [[1, 2, 3], [4, 5, 6], [7, 8, 9]] },
            Triangle { vertices: [[10, 11, 12], [7, 8, 9], [4, 5, 6]] },
            Triangle { vertices: [[7, 8, 9], [7, 8, 9], [1, 2, 3]] },
        ])
    );
    assert_eq!(triangles_from(&vertices, &[]), Ok(vec![]));
}

#[test]
fn face_that_names_a_missing_vertex_is_reported() {
    let vertices = [[1u32, 2, 3], [4, 5, 6], [7, 8, 9]];
    assert_eq!(triangles_from(&vertices, &[[0, 1, 3]]), Err(MeshError::CorruptMesh));
    assert_eq!(triangles_from(&vertices, &[[0, 1, 2], [3, 0, 1]]), Err(MeshError::CorruptMesh));
    assert_eq!(triangles_from(&vertices, &[[0, usize::MAX, 1]]), Err(MeshError::CorruptMesh));
    assert_eq!(triangles_from(&[], &[[0, 0, 0]]), Err(MeshError::CorruptMesh));
}

#[test]
fn buffer_of_no_known_format_is_unsupported() {
    assert_eq!(decode(None, &[]), Err(MeshError::UnsupportedFormat));
    assert_eq!(decode(None, b"ply\nformat ascii 1.0\n"), Err(MeshError::UnsupportedFormat));
    assert_eq!(decode(None, &vec![0u8; 84]), Err(MeshError::UnsupportedFormat));
}

#[test]
fn buffer_that_fails_validation_is_not_decoded() {
    let mut truncated = binary_stl(&cube([0.0, 0.0, 0.0], 1.0));
    truncated.truncate(84 + 12 * 50 - 1);
    assert_eq!(decode(Some(Format::STL), &truncated), Err(MeshError::InvalidFile));
    assert_eq!(decode(None, &truncated), Err(MeshError::UnsupportedFormat));
    assert_eq!(decode(Some(Format::STL), &[]), Err(MeshError::InvalidFile));

    // Eighty trailing bytes pass the sniffer, not the structural check.
    let mut padded = binary_stl(&cube([0.0, 0.0, 0.0], 1.0));
    padded.extend_from_slice(&[0u8; 80]);
    assert_eq!(STlParser::parse(&padded).map(|t| t.len()), Ok(12));
    assert_eq!(decode(Some(Format::STL), &padded), Err(MeshError::InvalidFile));
    assert_eq!(decode(None, &padded), Err(MeshError::InvalidFile));
    padded.pop();
    assert_eq!(decode(None, &padded).map(|t| t.len()), Ok(12));
}

#[test]
fn hint_takes_the_place_of_the_magic_bytes() {
    // No triangles: the magic bytes name no format, the hint does.
    let empty = binary_stl(&[]);
    assert_eq!(decode(None, &empty), Err(MeshError::UnsupportedFormat));
    assert_eq!(decode(Some(Format::STL), &empty), Ok(vec![]));
}

#[test]
fn decoding_reports_what_the_decoder_reports() {
    let mut open = cube([0.0, 0.0, 0.0], 1.0);
    open.pop();
    assert_eq!(decode(None, &binary_stl(&open)), Err(MeshError::InvalidMesh));
    assert_eq!(decode(Some(Format::STL), &text_stl(&open)), Err(MeshError::InvalidMesh));
    let mut garbled = text_stl(&cube([0.0, 0.0, 0.0], 1.0));
    garbled.truncate(garbled.len() - 30);
    assert_eq!(decode(None, &garbled), Err(MeshError::ParseFailed));
}
