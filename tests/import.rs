use assets::mesh::{dedup_corners, import_obj, Corner};
use assets::obj::{parse_line, ImportError, ObjLine};
use assets::text::{parse_usize, split_on};

const TRIANGLE: &str = "v 0.0 0.0 0.0\nv 1.0 0.0 0.0\nv 0.0 1.0 0.0\nvt 0.0 0.0\nvt 1.0 0.0\nvt 0.0 1.0\nvn 0.0 0.0 1.0\nvn 0.0 0.0 1.0\nvn 0.0 0.0 1.0\nf 1/1/1 2/2/2 3/3/3\n";

fn c(p: usize, t: usize, n: usize) -> Corner {
    Corner { position: p, tex_coord: t, normal: n }
}

#[test]
fn split_on_keeps_empty_pieces() {
    let parts = split_on(b"a  b", b' ');
    assert_eq!(parts, vec![b"a".to_vec(), Vec::new(), b"b".to_vec()]);
    assert_eq!(split_on(b"", b' '), vec![Vec::<u8>::new()]);
}

#[test]
fn parse_usize_reads_digits() {
    assert_eq!(parse_usize(b"0"), Some(0));
    assert_eq!(parse_usize(b"1234"), Some(1234));
    assert_eq!(parse_usize(b""), None);
    assert_eq!(parse_usize(b"12a"), None);
    assert_eq!(parse_usize(b"99999999999999999999999"), None);
}

#[test]
fn parse_line_shapes() {
    match parse_line(b"v -1.5 2.0 0.25").unwrap() {
        ObjLine::Position(f) => assert_eq!(f, vec![b"-1.5".to_vec(), b"2.0".to_vec(), b"0.25".to_vec()]),
        _ => panic!("not a position"),
    }
    assert!(matches!(parse_line(b"vt 0.5 0.5").unwrap(), ObjLine::TexCoord(_)));
    assert!(matches!(parse_line(b"vn 0.0 1.0 0.0").unwrap(), ObjLine::Normal(_)));
    match parse_line(b"f 1/2/3 4/5/6 7/8/9").unwrap() {
        ObjLine::Face(v) => assert_eq!(v, vec![1, 2, 3, 4, 5, 6, 7, 8, 9]),
        _ => panic!("not a face"),
    }
    assert!(matches!(parse_line(b"v 1 2 3").unwrap(), ObjLine::Other));
    assert!(matches!(parse_line(b"# comment").unwrap(), ObjLine::Other));
    assert!(matches!(parse_line(b"f 1/2 3/4 5/6").unwrap(), ObjLine::Other));
    assert!(matches!(parse_line(b"s off").unwrap(), ObjLine::Other));
}

#[test]
fn parse_line_rejects_oversized_index() {
    assert_eq!(
        parse_line(b"f 99999999999999999999999/1/1 1/1/1 1/1/1").err(),
        Some(ImportError::ParseError)
    );
}

#[test]
fn one_triangle_imports() {
    let m = import_obj(TRIANGLE.as_bytes()).unwrap();
    assert_eq!(m.vertex_count(), 3);
    assert_eq!(m.face_count(), 1);
    assert_eq!(m.positions.len(), 9);
    assert_eq!(m.tex_coords.len(), 6);
    assert_eq!(m.normals.len(), 9);
    assert_eq!(m.vertices, vec![c(0, 0, 0), c(1, 1, 1), c(2, 2, 2)]);
    assert_eq!(m.indices, vec![0, 1, 2]);
}

#[test]
fn shared_corners_are_deduplicated() {
    let text = format!("{}v 1.0 1.0 0.0\nf 3/3/3 2/2/2 4/1/1\n", TRIANGLE);
    let m = import_obj(text.as_bytes()).unwrap();
    assert_eq!(m.vertex_count(), 4);
    assert_eq!(m.face_count(), 2);
    assert_eq!(m.vertices, vec![c(0, 0, 0), c(1, 1, 1), c(2, 2, 2), c(3, 0, 0)]);
    assert_eq!(m.indices, vec![0, 1, 2, 2, 1, 3]);
}

#[test]
fn dedup_assigns_ids_in_first_seen_order() {
    let corners = vec![c(5, 1, 0), c(2, 2, 2), c(5, 1, 0), c(5, 1, 1), c(2, 2, 2)];
    let (vertices, ids) = dedup_corners(&corners);
    assert_eq!(vertices, vec![c(5, 1, 0), c(2, 2, 2), c(5, 1, 1)]);
    assert_eq!(ids, vec![0, 1, 0, 2, 1]);
    for i in 0..corners.len() {
        for j in 0..corners.len() {
            assert_eq!(corners[i] == corners[j], ids[i] == ids[j]);
        }
        assert!(ids[i] < vertices.len());
    }
}

#[test]
fn crlf_lines_and_unknown_lines() {
    let text = "# made by hand\r\no Triangle\r\nv 0.0 0.0 0.0\r\nv 1.0 0.0 0.0\r\nv 0.0 1.0 0.0\r\nvt 0.0 0.0\r\nvn 0.0 0.0 1.0\r\ns off\r\nf 1/1/1 2/1/1 3/1/1\r\n";
    let m = import_obj(text.as_bytes()).unwrap();
    assert_eq!(m.vertex_count(), 3);
    assert_eq!(m.face_count(), 1);
    assert_eq!(m.positions[8], b"0.0".to_vec());
}

#[test]
fn index_out_of_range_is_reported() {
    let text = format!("{}f 1/1/1 2/2/2 4/3/3\n", TRIANGLE);
    assert_eq!(import_obj(text.as_bytes()).err(), Some(ImportError::IndexOutOfRange));
    let text = format!("{}f 0/1/1 2/2/2 3/3/3\n", TRIANGLE);
    assert_eq!(import_obj(text.as_bytes()).err(), Some(ImportError::IndexOutOfRange));
    let text = format!("{}f 1/1/1 2/2/2 3/3/4\n", TRIANGLE);
    assert_eq!(import_obj(text.as_bytes()).err(), Some(ImportError::IndexOutOfRange));
}

#[test]
fn oversized_index_is_a_parse_error() {
    let text = format!("{}f 1/1/1 2/2/2 3/3/99999999999999999999999\n", TRIANGLE);
    assert_eq!(import_obj(text.as_bytes()).err(), Some(ImportError::ParseError));
}

#[test]
fn empty_text_gives_empty_mesh() {
    let m = import_obj(b"").unwrap();
    assert_eq!(m.vertex_count(), 0);
    assert_eq!(m.face_count(), 0);
}
