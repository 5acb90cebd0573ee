use game_engine::loader::{Loader, ObjError};
use game_engine::scalar::Scalar;

fn bytes(s: &str) -> Vec<u8> {
    s.as_bytes().to_vec()
}

const SIMPLE: &str = "v 0 0 0\nv 1 0 0\nv 0 1 0\nvt 0 0\nvt 1 0\nvt 0 1\nvn 0 0 1\nvn 0 0 1\nvn 0 0 1\nf 1/1/1 2/2/2 3/3/3\n";

#[test]
fn one_triangular_face_gives_three_vertices_and_indices() {
    let data = Loader::load_obj_file(&bytes(SIMPLE)).unwrap();
    assert_eq!(data.indice, vec![0u32, 1, 2]);
    assert_eq!(data.vertices.len(), 9);
    assert_eq!(data.texture.len(), 6);
    assert_eq!(data.normal.len(), 9);
    // second unique vertex: position (1, 0, 0), texture (1, 0), normal (0, 0, 1)
    assert_eq!(data.vertices[3].nanos, 1_000_000_000);
    assert_eq!(data.vertices[4].nanos, 0);
    assert_eq!(data.texture[2].nanos, 1_000_000_000);
    assert_eq!(data.normal[5].nanos, 1_000_000_000);
}

#[test]
fn shared_corner_maps_to_one_deduplicated_vertex() {
    let src = "v 0 0 0\nv 1 0 0\nv 0 1 0\nvt 0 0\nvt 1 0\nvt 0 1\nvn 0 0 1\nvn 0 0 1\nvn 0 0 1\nf 1/1/1 2/2/2 3/3/3\nf 2/2/2 3/3/3 1/1/1\n";
    let data = Loader::load_obj_file(&bytes(src)).unwrap();
    // six face-vertex tokens, three unique combinations
    assert_eq!(data.indice, vec![0u32, 1, 2, 1, 2, 0]);
    assert_eq!(data.vertices.len(), 9);
}

#[test]
fn index_count_equals_face_vertex_token_count() {
    let src = "v 0 0 0\nv 1 0 0\nv 0 1 0\nvt 0 0\nvt 1 0\nvt 0 1\nvn 0 0 1\nvn 0 0 1\nvn 0 0 1\nf 1/1/1 2/2/2 3/3/3\nf 1/2/3 2/3/1 3/1/2\n";
    let data = Loader::load_obj_file(&bytes(src)).unwrap();
    assert_eq!(data.indice.len(), 6);
}

#[test]
fn reimporting_the_same_bytes_gives_identical_arrays() {
    let src = bytes(SIMPLE);
    let a = Loader::load_obj_file(&src).unwrap();
    let b = Loader::load_obj_file(&src).unwrap();
    assert_eq!(a.vertices, b.vertices);
    assert_eq!(a.texture, b.texture);
    assert_eq!(a.normal, b.normal);
    assert_eq!(a.indice, b.indice);
}

#[test]
fn zero_faces_gives_empty_arrays_not_an_error() {
    let src = "v 0 0 0\nv 1 0 0\nvt 0 0\nvn 0 0 1\n";
    let data = Loader::load_obj_file(&bytes(src)).unwrap();
    assert!(data.vertices.is_empty());
    assert!(data.texture.is_empty());
    assert!(data.normal.is_empty());
    assert!(data.indice.is_empty());
}

#[test]
fn empty_file_gives_empty_arrays() {
    let data = Loader::load_obj_file(&bytes("")).unwrap();
    assert!(data.indice.is_empty());
}

#[test]
fn unknown_and_blank_lines_are_ignored() {
    let src = "# comment\no object\n\ns off\nv 0 0 0\nv 1 0 0\nv 0 1 0\nvt 0 0\nvt 1 0\nvt 0 1\nvn 0 0 1\nvn 0 0 1\nvn 0 0 1\nf 1/1/1 2/2/2 3/3/3\n";
    let data = Loader::load_obj_file(&bytes(src)).unwrap();
    assert_eq!(data.indice, vec![0u32, 1, 2]);
}

#[test]
fn carriage_returns_are_stripped() {
    let src = SIMPLE.replace('\n', "\r\n");
    let data = Loader::load_obj_file(&bytes(&src)).unwrap();
    assert_eq!(data.indice, vec![0u32, 1, 2]);
}

#[test]
fn coordinates_parse_to_exact_nanounits() {
    let src = "v 0.5 -1.25 2\nv 0.0868241 -0.0000001 1000\nv 0.1234567891 0 0\nvt 0 0\nvn 0 0 1\nf 1/1/1 2/1/1 3/1/1\n";
    let data = Loader::load_obj_file(&bytes(src)).unwrap();
    assert_eq!(data.vertices[0], Scalar { nanos: 500_000_000 });
    assert_eq!(data.vertices[1], Scalar { nanos: -1_250_000_000 });
    assert_eq!(data.vertices[2], Scalar { nanos: 2_000_000_000 });
    assert_eq!(data.vertices[3], Scalar { nanos: 86_824_100 });
    assert_eq!(data.vertices[4], Scalar { nanos: -100 });
    assert_eq!(data.vertices[5], Scalar { nanos: 1_000_000_000_000 });
    // a tenth fractional digit does not contribute
    assert_eq!(data.vertices[6], Scalar { nanos: 123_456_789 });
}

#[test]
fn malformed_coordinate_is_a_parse_error() {
    let src = "v 1 x 3\n";
    assert!(matches!(
        Loader::load_obj_file(&bytes(src)),
        Err(ObjError::MalformedCoordinate)
    ));
    let short = "v 1 2\n";
    assert!(matches!(
        Loader::load_obj_file(&bytes(short)),
        Err(ObjError::MalformedCoordinate)
    ));
    let bad_vt = "vt 1\n";
    assert!(matches!(
        Loader::load_obj_file(&bytes(bad_vt)),
        Err(ObjError::MalformedCoordinate)
    ));
    let bad_vn = "vn a b c\n";
    assert!(matches!(
        Loader::load_obj_file(&bytes(bad_vn)),
        Err(ObjError::MalformedCoordinate)
    ));
}

#[test]
fn malformed_face_reference_is_a_parse_error() {
    let src = "v 0 0 0\nvt 0 0\nvn 0 0 1\nf 1/1 1/1/1 1/1/1\n";
    assert!(matches!(
        Loader::load_obj_file(&bytes(src)),
        Err(ObjError::MalformedFaceRef)
    ));
    let src2 = "v 0 0 0\nvt 0 0\nvn 0 0 1\nf a/1/1 1/1/1 1/1/1\n";
    assert!(matches!(
        Loader::load_obj_file(&bytes(src2)),
        Err(ObjError::MalformedFaceRef)
    ));
}

#[test]
fn out_of_range_face_reference_is_rejected() {
    let src = "v 0 0 0\nvt 0 0\nvn 0 0 1\nf 2/1/1 1/1/1 1/1/1\n";
    assert!(matches!(
        Loader::load_obj_file(&bytes(src)),
        Err(ObjError::FaceRefOutOfRange)
    ));
    // references are one-based, so zero is out of range
    let zero = "v 0 0 0\nvt 0 0\nvn 0 0 1\nf 0/1/1 1/1/1 1/1/1\n";
    assert!(matches!(
        Loader::load_obj_file(&bytes(zero)),
        Err(ObjError::FaceRefOutOfRange)
    ));
}

#[test]
fn face_vertex_data_is_interleaved_in_first_seen_order() {
    let src = "v 0 0 0\nv 1 0 0\nvt 0 0\nvt 1 0\nvn 0 0 1\nvn 1 0 0\nf 2/2/2 1/1/1 2/1/2\n";
    let data = Loader::load_obj_file(&bytes(src)).unwrap();
    assert_eq!(data.indice, vec![0u32, 1, 2]);
    // first unique combination is 2/2/2
    assert_eq!(data.vertices[0], Scalar { nanos: 1_000_000_000 });
    assert_eq!(data.texture[0], Scalar { nanos: 1_000_000_000 });
    assert_eq!(data.normal[0], Scalar { nanos: 1_000_000_000 });
    // third unique combination 2/1/2 shares the position of the first
    assert_eq!(data.vertices[6], Scalar { nanos: 1_000_000_000 });
    assert_eq!(data.texture[4], Scalar { nanos: 0 });
}
