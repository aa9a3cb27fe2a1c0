use assets::bundle::{align, Mesh};
use assets::face_map::{FaceMap, NO_FACE};
use assets::mesh::import_obj;
use assets::pack::{pack_bundle, pack_face_region, pack_vertex_region};
use assets::mesh::Corner;

const TRIANGLE: &str = "v 0.0 0.0 0.0\nv 1.0 0.0 0.0\nv 0.0 1.0 0.0\nvt 0.0 0.0\nvt 1.0 0.0\nvt 0.0 1.0\nvn 0.0 0.0 1.0\nvn 0.0 0.0 1.0\nvn 0.0 0.0 1.0\nf 1/1/1 2/2/2 3/3/3\n";

fn bits(fields: &[Vec<u8>]) -> Vec<u32> {
    fields
        .iter()
        .map(|f| std::str::from_utf8(f).unwrap().parse::<f32>().unwrap().to_bits())
        .collect()
}

#[test]
fn one_triangle_end_to_end() {
    let m = import_obj(TRIANGLE.as_bytes()).unwrap();
    let solvers = vec![0u32; 6];
    let packed = pack_bundle(&m, &bits(&m.positions), &bits(&m.tex_coords), &bits(&m.normals), &solvers)
        .unwrap();
    assert_eq!(packed.len(), align(3 * 12) + align(3 * 8) + 3 * 12 + align(4 * 3) + 6 * 4);
    let bundle = Mesh::new(m.vertex_count(), m.face_count(), &packed).unwrap();
    assert_eq!(bundle.vertex_count(), 3);
    assert_eq!(bundle.face_count(), 1);
    assert_eq!(bundle.vertex_buffer_size(), align(3 * 12) + align(3 * 8) + 3 * 12);
    assert_eq!(bundle.face_buffer_size(), align(4 * 3) + 6 * 4);
    let faces = bundle.face_buffer_bytes();
    assert_eq!(&faces[0..12], &[0, 0, 0, 0, 1, 0, 0, 0, 2, 0, 0, 0]);
    assert!(faces[12..256].iter().all(|b| *b == 0));
    let vb = bundle.vertex_buffer_bytes();
    // second position is (1.0, 0.0, 0.0)
    assert_eq!(&vb[12..16], &1.0f32.to_le_bytes());
    // the third texture coordinate's v is 1.0
    assert_eq!(&vb[256 + 20..256 + 24], &1.0f32.to_le_bytes());
    assert!(vb[36..256].iter().all(|b| *b == 0));
    assert_eq!(&vb[512 + 8..512 + 12], &1.0f32.to_le_bytes());
}

#[test]
fn vertex_region_follows_vertex_order() {
    let vertices = vec![
        Corner { position: 1, tex_coord: 0, normal: 0 },
        Corner { position: 0, tex_coord: 0, normal: 0 },
    ];
    let positions = vec![10, 11, 12, 20, 21, 22];
    let tex = vec![30, 31];
    let normals = vec![40, 41, 42];
    let r = pack_vertex_region(&vertices, &positions, &tex, &normals);
    assert_eq!(r.len(), 256 + 256 + 24);
    assert_eq!(&r[0..4], &20u32.to_le_bytes());
    assert_eq!(&r[12..16], &10u32.to_le_bytes());
    assert_eq!(&r[256..260], &30u32.to_le_bytes());
    assert_eq!(&r[264..268], &30u32.to_le_bytes());
    assert_eq!(&r[512..516], &40u32.to_le_bytes());
    assert_eq!(&r[532..536], &42u32.to_le_bytes());
}

#[test]
fn face_region_words_are_little_endian() {
    let indices = vec![0x0102_0304usize, 1, 2];
    let solvers = vec![0xaabb_ccddu32, 2, 3, 4, 5, 6];
    let r = pack_face_region(&indices, &solvers);
    assert_eq!(r.len(), 256 + 24);
    assert_eq!(&r[0..4], &[4, 3, 2, 1]);
    assert_eq!(&r[256..260], &[0xdd, 0xcc, 0xbb, 0xaa]);
    assert_eq!(&r[276..280], &[6, 0, 0, 0]);
}

#[test]
fn packed_length_matches_reader_for_many_faces() {
    let mut text = String::from(TRIANGLE);
    for _ in 0..30 {
        text.push_str("f 3/1/2 1/2/3 2/3/1\n");
    }
    let m = import_obj(text.as_bytes()).unwrap();
    let solvers = vec![0u32; 6 * m.face_count()];
    let packed = pack_bundle(&m, &bits(&m.positions), &bits(&m.tex_coords), &bits(&m.normals), &solvers)
        .unwrap();
    let bundle = Mesh::new(m.vertex_count(), m.face_count(), &packed).unwrap();
    assert_eq!(bundle.face_count(), 31);
    assert_eq!(bundle.vertex_count(), 6);
    assert_eq!(
        packed.len(),
        bundle.vertex_buffer_size() + bundle.solvers_offset() + bundle.solvers_size()
    );
    assert_eq!(bundle.face_buffer_bytes().len(), bundle.face_buffer_size());
}

#[test]
fn face_map_starts_empty_and_last_write_wins() {
    let mut fm = FaceMap::new(2, 2, 2).unwrap();
    for y in 0..2 {
        for x in 0..2 {
            assert_eq!(fm.get(x, y), NO_FACE);
        }
    }
    fm.cover(0, 0, 0);
    fm.cover(1, 0, 0);
    fm.cover(0, 1, 0);
    fm.cover(1, 0, 1);
    fm.cover(0, 1, 1);
    fm.cover(1, 1, 1);
    assert_eq!(fm.get(0, 0), 0);
    assert_eq!(fm.get(1, 0), 1);
    assert_eq!(fm.get(0, 1), 1);
    assert_eq!(fm.get(1, 1), 1);
    let bytes = fm.to_bytes();
    assert_eq!(bytes.len(), 16);
    assert_eq!(&bytes[0..4], &[0, 0, 0, 0]);
    assert_eq!(&bytes[4..8], &[1, 0, 0, 0]);
}

#[test]
fn face_map_bytes_keep_the_sentinel() {
    let fm = FaceMap::new(3, 1, 1).unwrap();
    assert_eq!(fm.to_bytes(), vec![0xff; 12]);
    assert!(FaceMap::new(usize::MAX, 2, 1).is_none());
}
