//! Packing vertex attributes, face indices and solvers into the two
//! alignment-padded byte regions of a bundle.
//!
//! Attribute and solver values arrive as the bit patterns of 32-bit floats;
//! every 32-bit word is written little-endian.
use vstd::prelude::*;
use vstd::bytes::{spec_u32_to_le_bytes, u32_to_le_bytes};
use crate::bundle::{
    align_up, bundle_wf, checked_align, face_region_len, face_region_size, faces_offset_of,
    faces_size_of, lemma_align_up, lemma_face_layout_ordered, lemma_vertex_layout_ordered,
    normals_offset_of, normals_size_of, positions_offset_of, positions_size_of,
    solvers_offset_of, solvers_size_of, tex_coords_offset_of, tex_coords_size_of,
    vertex_region_len, vertex_region_size, MeshView,
};
use crate::mesh::{mesh_wf, Corner, ObjMesh};

verus! {

/// The little-endian bytes of each word, in order.
pub open spec fn words_bytes(ws: Seq<u32>) -> Seq<u8>
    decreases ws.len(),
{
    if ws.len() == 0 {
        Seq::empty()
    } else {
        words_bytes(ws.drop_last()) + spec_u32_to_le_bytes(ws.last())
    }
}

/// `b` followed by zero bytes up to the next multiple of 256.
pub open spec fn padded(b: Seq<u8>) -> Seq<u8> {
    b + Seq::new((align_up(b.len()) - b.len()) as nat, |i: int| 0u8)
}

/// The attribute index that a corner holds: position (0), texture
/// coordinate (1) or normal (2).
pub open spec fn corner_index(c: Corner, which: nat) -> usize {
    if which == 0 {
        c.position
    } else if which == 1 {
        c.tex_coord
    } else {
        c.normal
    }
}

/// For each vertex in order, the `width` words of the attribute it names.
pub open spec fn gather(attr: Seq<u32>, width: nat, vertices: Seq<Corner>, which: nat) -> Seq<u32>
    decreases vertices.len(),
{
    if vertices.len() == 0 {
        Seq::empty()
    } else {
        let k = corner_index(vertices.last(), which) * width;
        gather(attr, width, vertices.drop_last(), which) + attr.subrange(k as int, k + width)
    }
}

/// The vertex region: the positions, texture coordinates and normals of the
/// vertices, each of the first two parts followed by zeros up to the next
/// multiple of 256 bytes from the region start.
pub open spec fn vertex_region(
    vertices: Seq<Corner>,
    positions: Seq<u32>,
    tex_coords: Seq<u32>,
    normals: Seq<u32>,
) -> Seq<u8> {
    padded(
        padded(words_bytes(gather(positions, 3, vertices, 0))) + words_bytes(
            gather(tex_coords, 2, vertices, 1),
        ),
    ) + words_bytes(gather(normals, 3, vertices, 2))
}

/// The face region: the vertex ids of each face, padded to a multiple of 256
/// bytes, then the solvers (six words per face).
pub open spec fn face_region(indices: Seq<u32>, solvers: Seq<u32>) -> Seq<u8> {
    padded(words_bytes(indices)) + words_bytes(solvers)
}

/// Every vertex names an existing attribute of each kind.
pub open spec fn vertices_in_range(
    vertices: Seq<Corner>,
    positions: Seq<u32>,
    tex_coords: Seq<u32>,
    normals: Seq<u32>,
) -> bool {
    forall|k: int|
        0 <= k < vertices.len() ==> {
            &&& (#[trigger] vertices[k]).position < positions.len() / 3
            &&& vertices[k].tex_coord < tex_coords.len() / 2
            &&& vertices[k].normal < normals.len() / 3
        }
}

pub proof fn lemma_words_bytes_len(ws: Seq<u32>)
    ensures
        words_bytes(ws).len() == 4 * ws.len(),
    decreases ws.len(),
{
    vstd::bytes::lemma_auto_spec_u32_to_from_le_bytes();
    if ws.len() > 0 {
        lemma_words_bytes_len(ws.drop_last());
    }
}

/// Every vertex names a whole attribute of `attr`.
pub open spec fn gather_in_range(attr: Seq<u32>, width: nat, vertices: Seq<Corner>, which: nat) -> bool {
    forall|k: int|
        0 <= k < vertices.len() ==> (corner_index(#[trigger] vertices[k], which) + 1) * width
            <= attr.len()
}

pub proof fn lemma_gather_len(attr: Seq<u32>, width: nat, vertices: Seq<Corner>, which: nat)
    requires
        gather_in_range(attr, width, vertices, which),
    ensures
        gather(attr, width, vertices, which).len() == width * vertices.len(),
    decreases vertices.len(),
{
    if vertices.len() > 0 {
        let v = vertices.last();
        assert(vertices[vertices.len() - 1] == v);
        let i = corner_index(v, which);
        assert((i + 1) * width == i * width + width) by (nonlinear_arith);
        lemma_gather_len(attr, width, vertices.drop_last(), which);
        assert(width * vertices.len() == width * (vertices.len() - 1) + width)
            by (nonlinear_arith);
    }
}

/// Appends the little-endian bytes of each word to `out`.
pub(crate) fn push_words(out: &mut Vec<u8>, ws: &Vec<u32>)
    ensures
        final(out)@ == old(out)@ + words_bytes(ws@),
{
    let mut i: usize = 0;
    proof {
        assert(ws@.take(0) =~= Seq::<u32>::empty());
        assert(out@ =~= old(out)@ + words_bytes(ws@.take(0)));
    }
    while i < ws.len()
        invariant
            i <= ws@.len(),
            out@ == old(out)@ + words_bytes(ws@.take(i as int)),
        decreases ws@.len() - i,
    {
        let mut b = u32_to_le_bytes(ws[i]);
        let ghost before = out@;
        let ghost added = b@;
        out.append(&mut b);
        proof {
            assert(ws@.take(i + 1).drop_last() =~= ws@.take(i as int));
            assert(out@ =~= old(out)@ + words_bytes(ws@.take(i + 1)));
        }
        i = i + 1;
    }
    proof {
        assert(ws@.take(ws@.len() as int) =~= ws@);
    }
}

/// Appends zero bytes to `out` up to the next multiple of 256 in length.
fn pad_to_alignment(out: &mut Vec<u8>)
    requires
        align_up(old(out)@.len()) <= usize::MAX,
    ensures
        final(out)@ == padded(old(out)@),
{
    proof {
        lemma_align_up(out@.len());
    }
    let target = match checked_align(out.len()) {
        Some(t) => t,
        None => out.len(),
    };
    let ghost base = out@;
    while out.len() < target
        invariant
            base.len() <= out@.len() <= target,
            target == align_up(base.len()),
            out@.subrange(0, base.len() as int) == base,
            forall|k: int| base.len() <= k < out@.len() ==> out@[k] == 0u8,
        decreases target - out@.len(),
    {
        out.push(0u8);
        proof {
            assert(out@.subrange(0, base.len() as int) =~= base);
        }
    }
    proof {
        assert(out@ =~= padded(base));
    }
}

/// For each vertex, the `width` words of the attribute it names.
fn gather_words(attr: &Vec<u32>, width: usize, vertices: &Vec<Corner>, which: usize) -> (r: Vec<u32>)
    requires
        1 <= width <= 3,
        which <= 2,
        gather_in_range(attr@, width as nat, vertices@, which as nat),
    ensures
        r@ == gather(attr@, width as nat, vertices@, which as nat),
{
    let attr_len = attr.len();
    let mut words: Vec<u32> = Vec::new();
    let mut i: usize = 0;
    proof {
        assert(vertices@.take(0) =~= Seq::<Corner>::empty());
    }
    while i < vertices.len()
        invariant
            1 <= width <= 3,
            which <= 2,
            attr_len == attr@.len(),
            i <= vertices@.len(),
            gather_in_range(attr@, width as nat, vertices@, which as nat),
            words@ == gather(attr@, width as nat, vertices@.take(i as int), which as nat),
        decreases vertices@.len() - i,
    {
        let v = vertices[i];
        let index = if which == 0 {
            v.position
        } else if which == 1 {
            v.tex_coord
        } else {
            v.normal
        };
        proof {
            assert((corner_index(vertices@[i as int], which as nat) + 1) * width <= attr@.len());
            assert((index + 1) * width == index * width + width) by (nonlinear_arith);
        }
        let base = index * width;
        let ghost start = words@;
        let mut j: usize = 0;
        while j < width
            invariant
                j <= width,
                base + width <= attr@.len(),
                attr_len == attr@.len(),
                words@ == start + attr@.subrange(base as int, base + j),
            decreases width - j,
        {
            words.push(attr[base + j]);
            proof {
                assert(words@ =~= start + attr@.subrange(base as int, base + j + 1));
            }
            j = j + 1;
        }
        proof {
            assert(vertices@.take(i + 1).drop_last() =~= vertices@.take(i as int));
            assert(vertices@.take(i + 1).last() == v);
        }
        i = i + 1;
    }
    proof {
        assert(vertices@.take(vertices@.len() as int) =~= vertices@);
    }
    words
}

proof fn lemma_whole_attribute(p: nat, len: nat, width: nat)
    requires
        width > 0,
        p < len / width,
    ensures
        (p + 1) * width <= len,
{
    assert((len / width) * width <= len) by (nonlinear_arith)
        requires
            width > 0,
    ;
    assert((p + 1) * width <= (len / width) * width) by (nonlinear_arith)
        requires
            p + 1 <= len / width,
    ;
}

proof fn lemma_vertices_gather_in_range(
    vertices: Seq<Corner>,
    positions: Seq<u32>,
    tex_coords: Seq<u32>,
    normals: Seq<u32>,
)
    requires
        vertices_in_range(vertices, positions, tex_coords, normals),
    ensures
        gather_in_range(positions, 3, vertices, 0),
        gather_in_range(tex_coords, 2, vertices, 1),
        gather_in_range(normals, 3, vertices, 2),
        gather(positions, 3, vertices, 0).len() == 3 * vertices.len(),
        gather(tex_coords, 2, vertices, 1).len() == 2 * vertices.len(),
        gather(normals, 3, vertices, 2).len() == 3 * vertices.len(),
{
    assert forall|k: int| 0 <= k < vertices.len() implies {
        &&& (corner_index(#[trigger] vertices[k], 0) + 1) * 3 <= positions.len()
        &&& (corner_index(vertices[k], 1) + 1) * 2 <= tex_coords.len()
        &&& (corner_index(vertices[k], 2) + 1) * 3 <= normals.len()
    } by {
        lemma_whole_attribute(vertices[k].position as nat, positions.len(), 3);
        lemma_whole_attribute(vertices[k].tex_coord as nat, tex_coords.len(), 2);
        lemma_whole_attribute(vertices[k].normal as nat, normals.len(), 3);
    }
    lemma_gather_len(positions, 3, vertices, 0);
    lemma_gather_len(tex_coords, 2, vertices, 1);
    lemma_gather_len(normals, 3, vertices, 2);
}

/// Packs the vertex region: for each vertex in order its position, then for
/// each its texture coordinate, then for each its normal, with the first two
/// parts padded by zeros to a multiple of 256 bytes. Attributes are given as
/// the bit patterns of their floats, three words per position and normal and
/// two per texture coordinate.
pub fn pack_vertex_region(
    vertices: &Vec<Corner>,
    positions: &Vec<u32>,
    tex_coords: &Vec<u32>,
    normals: &Vec<u32>,
) -> (r: Vec<u8>)
    requires
        vertices_in_range(vertices@, positions@, tex_coords@, normals@),
        vertex_region_size(vertices@.len()) <= usize::MAX,
    ensures
        r@ == vertex_region(vertices@, positions@, tex_coords@, normals@),
        r@.len() == vertex_region_size(vertices@.len()),
{
    let ghost n = vertices@.len();
    proof {
        lemma_vertices_gather_in_range(vertices@, positions@, tex_coords@, normals@);
        lemma_vertex_layout_ordered(n);
        lemma_words_bytes_len(gather(positions@, 3, vertices@, 0));
        lemma_words_bytes_len(gather(tex_coords@, 2, vertices@, 1));
        lemma_words_bytes_len(gather(normals@, 3, vertices@, 2));
    }
    let mut out: Vec<u8> = Vec::new();
    let p = gather_words(positions, 3, vertices, 0);
    push_words(&mut out, &p);
    proof {
        assert(out@ =~= words_bytes(p@));
    }
    pad_to_alignment(&mut out);
    let t = gather_words(tex_coords, 2, vertices, 1);
    push_words(&mut out, &t);
    pad_to_alignment(&mut out);
    let m = gather_words(normals, 3, vertices, 2);
    push_words(&mut out, &m);
    out
}

/// The vertex ids as 32-bit words.
pub open spec fn index_words(indices: Seq<usize>) -> Seq<u32> {
    indices.map_values(|i: usize| i as u32)
}

/// Packs the face region: the vertex ids of each face as 32-bit words, padded
/// by zeros to a multiple of 256 bytes, then six solver words per face.
pub fn pack_face_region(indices: &Vec<usize>, solvers: &Vec<u32>) -> (r: Vec<u8>)
    requires
        indices@.len() % 3 == 0,
        solvers@.len() == 2 * indices@.len(),
        forall|i: int| 0 <= i < indices@.len() ==> #[trigger] indices@[i] <= u32::MAX,
        face_region_size(indices@.len() / 3) <= usize::MAX,
    ensures
        r@ == face_region(index_words(indices@), solvers@),
        r@.len() == face_region_size(indices@.len() / 3),
{
    let ghost f = indices@.len() / 3;
    let mut words: Vec<u32> = Vec::new();
    let mut i: usize = 0;
    while i < indices.len()
        invariant
            i <= indices@.len(),
            forall|k: int| 0 <= k < indices@.len() ==> #[trigger] indices@[k] <= u32::MAX,
            words@ == index_words(indices@.take(i as int)),
        decreases indices@.len() - i,
    {
        words.push(indices[i] as u32);
        proof {
            assert(words@ =~= index_words(indices@.take(i + 1)));
        }
        i = i + 1;
    }
    proof {
        assert(indices@.take(indices@.len() as int) =~= indices@);
        lemma_face_layout_ordered(f);
        lemma_words_bytes_len(words@);
        lemma_words_bytes_len(solvers@);
    }
    let mut out: Vec<u8> = Vec::new();
    push_words(&mut out, &words);
    proof {
        assert(out@ =~= words_bytes(words@));
    }
    pad_to_alignment(&mut out);
    push_words(&mut out, solvers);
    out
}

/// Packs a whole bundle: the vertex region followed by the face region.
/// `positions`, `tex_coords` and `normals` hold the bit patterns of the
/// mesh's attribute fields, one word per field; `solvers` six words per face.
/// `None` where a vertex id would not fit in 32 bits or the bundle in memory.
pub fn pack_bundle(
    mesh: &ObjMesh,
    positions: &Vec<u32>,
    tex_coords: &Vec<u32>,
    normals: &Vec<u32>,
    solvers: &Vec<u32>,
) -> (r: Option<Vec<u8>>)
    requires
        mesh_wf(*mesh),
        positions@.len() == mesh.positions@.len(),
        tex_coords@.len() == mesh.tex_coords@.len(),
        normals@.len() == mesh.normals@.len(),
        solvers@.len() == 2 * mesh.indices@.len(),
    ensures
        r.is_some() <==> mesh.vertices@.len() <= u32::MAX + 1 && vertex_region_size(
            mesh.vertices@.len(),
        ) + face_region_size(mesh.indices@.len() / 3) <= usize::MAX,
        r.is_some() ==> r.unwrap()@ == vertex_region(
            mesh.vertices@,
            positions@,
            tex_coords@,
            normals@,
        ) + face_region(index_words(mesh.indices@), solvers@),
{
    if mesh.vertices.len() > 0 && mesh.vertices.len() - 1 > u32::MAX as usize {
        return None;
    }
    let v = vertex_region_len(mesh.vertices.len())?;
    let f = face_region_len(mesh.indices.len() / 3)?;
    if v.checked_add(f).is_none() {
        return None;
    }
    let mut out = pack_vertex_region(&mesh.vertices, positions, tex_coords, normals);
    let mut faces = pack_face_region(&mesh.indices, solvers);
    out.append(&mut faces);
    Some(out)
}

/// Reading a packed bundle back: its length is exactly that of the two
/// regions its counts call for, so it is accepted as a bundle, and each
/// field's offset and size in its region pick out exactly that field's bytes.
pub proof fn lemma_packed_bundle_reads_back(
    vertices: Seq<Corner>,
    positions: Seq<u32>,
    tex_coords: Seq<u32>,
    normals: Seq<u32>,
    indices: Seq<usize>,
    solvers: Seq<u32>,
)
    requires
        vertices_in_range(vertices, positions, tex_coords, normals),
        indices.len() % 3 == 0,
        solvers.len() == 2 * indices.len(),
    ensures
        ({
            let n = vertices.len();
            let f = indices.len() / 3;
            let vr = vertex_region(vertices, positions, tex_coords, normals);
            let fr = face_region(index_words(indices), solvers);
            &&& vr.len() == vertex_region_size(n)
            &&& fr.len() == face_region_size(f)
            &&& bundle_wf(MeshView { vertex_count: n, face_count: f, bytes: vr + fr })
            &&& vr.subrange(
                positions_offset_of(n) as int,
                (positions_offset_of(n) + positions_size_of(n)) as int,
            ) == words_bytes(gather(positions, 3, vertices, 0))
            &&& vr.subrange(
                tex_coords_offset_of(n) as int,
                (tex_coords_offset_of(n) + tex_coords_size_of(n)) as int,
            ) == words_bytes(gather(tex_coords, 2, vertices, 1))
            &&& vr.subrange(normals_offset_of(n) as int, (normals_offset_of(n) + normals_size_of(n)) as int)
                == words_bytes(gather(normals, 3, vertices, 2))
            &&& fr.subrange(faces_offset_of(f) as int, (faces_offset_of(f) + faces_size_of(f)) as int)
                == words_bytes(index_words(indices))
            &&& fr.subrange(solvers_offset_of(f) as int, (solvers_offset_of(f) + solvers_size_of(f)) as int)
                == words_bytes(solvers)
        }),
{
    let n = vertices.len();
    let f = indices.len() / 3;
    lemma_vertices_gather_in_range(vertices, positions, tex_coords, normals);
    lemma_vertex_layout_ordered(n);
    lemma_face_layout_ordered(f);
    let p = words_bytes(gather(positions, 3, vertices, 0));
    let t = words_bytes(gather(tex_coords, 2, vertices, 1));
    let m = words_bytes(gather(normals, 3, vertices, 2));
    let w = words_bytes(index_words(indices));
    let s = words_bytes(solvers);
    lemma_words_bytes_len(gather(positions, 3, vertices, 0));
    lemma_words_bytes_len(gather(tex_coords, 2, vertices, 1));
    lemma_words_bytes_len(gather(normals, 3, vertices, 2));
    lemma_words_bytes_len(index_words(indices));
    lemma_words_bytes_len(solvers);
    let vr = vertex_region(vertices, positions, tex_coords, normals);
    let fr = face_region(index_words(indices), solvers);
    assert(vr.subrange(0, p.len() as int) =~= p);
    assert(vr.subrange(align_up(p.len()) as int, (align_up(p.len()) + t.len()) as int) =~= t);
    assert(vr.subrange(
        align_up(padded(p).len() + t.len()) as int,
        (align_up(padded(p).len() + t.len()) + m.len()) as int,
    ) =~= m);
    assert(fr.subrange(0, w.len() as int) =~= w);
    assert(fr.subrange(align_up(w.len()) as int, (align_up(w.len()) + s.len()) as int) =~= s);
}

} // verus!
