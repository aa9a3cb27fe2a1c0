//! Typed offset/size accessors over a packed mesh bundle and a raw texture.
//!
//! Every sub-region starts on a multiple of [`ALIGNMENT`] bytes from the start
//! of its region. The layout is a pure function of the vertex and face counts.
use vstd::prelude::*;

verus! {

/// Every sub-region of a bundle starts at a multiple of this many bytes.
pub const ALIGNMENT: usize = 256;

/// Bytes per position (three 32-bit floats).
pub const POSITION_BYTES: usize = 12;

/// Bytes per texture coordinate (two 32-bit floats).
pub const TEX_COORD_BYTES: usize = 8;

/// Bytes per normal (three 32-bit floats).
pub const NORMAL_BYTES: usize = 12;

/// Bytes per face index triple (three 32-bit unsigned integers).
pub const FACE_BYTES: usize = 12;

/// Bytes per solver (a 2x2 matrix and a 2D reference point, six 32-bit floats).
pub const SOLVER_BYTES: usize = 24;

/// The smallest multiple of 256 that is at least `n`.
#[verifier::opaque]
pub open spec fn align_up(n: nat) -> nat {
    if n % 256 == 0 {
        n
    } else {
        (n + (256 - n % 256)) as nat
    }
}

pub open spec fn positions_offset_of(vertex_count: nat) -> nat {
    0
}

pub open spec fn positions_size_of(vertex_count: nat) -> nat {
    vertex_count * 12
}

pub open spec fn tex_coords_offset_of(vertex_count: nat) -> nat {
    align_up(positions_offset_of(vertex_count) + positions_size_of(vertex_count))
}

pub open spec fn tex_coords_size_of(vertex_count: nat) -> nat {
    vertex_count * 8
}

pub open spec fn normals_offset_of(vertex_count: nat) -> nat {
    align_up(tex_coords_offset_of(vertex_count) + tex_coords_size_of(vertex_count))
}

pub open spec fn normals_size_of(vertex_count: nat) -> nat {
    vertex_count * 12
}

/// Length of the vertex region: positions, tex-coords and normals, each aligned.
pub open spec fn vertex_region_size(vertex_count: nat) -> nat {
    normals_offset_of(vertex_count) + normals_size_of(vertex_count)
}

pub open spec fn faces_offset_of(face_count: nat) -> nat {
    0
}

pub open spec fn faces_size_of(face_count: nat) -> nat {
    face_count * 12
}

pub open spec fn solvers_offset_of(face_count: nat) -> nat {
    align_up(faces_offset_of(face_count) + faces_size_of(face_count))
}

pub open spec fn solvers_size_of(face_count: nat) -> nat {
    face_count * 24
}

/// Length of the face region: indices then solvers, each aligned.
pub open spec fn face_region_size(face_count: nat) -> nat {
    solvers_offset_of(face_count) + solvers_size_of(face_count)
}

/// Aligning never moves an offset down, nor by a whole alignment step.
pub proof fn lemma_align_up(n: nat)
    ensures
        n <= align_up(n) < n + 256,
        align_up(n) % 256 == 0,
{
    reveal(align_up);
}

/// Each part of the vertex region ends before the next one starts.
pub proof fn lemma_vertex_layout_ordered(vertex_count: nat)
    ensures
        positions_size_of(vertex_count) <= tex_coords_offset_of(vertex_count),
        tex_coords_offset_of(vertex_count) + tex_coords_size_of(vertex_count)
            <= normals_offset_of(vertex_count),
        normals_offset_of(vertex_count) <= vertex_region_size(vertex_count),
{
    lemma_align_up(positions_size_of(vertex_count));
    lemma_align_up(tex_coords_offset_of(vertex_count) + tex_coords_size_of(vertex_count));
}

/// Each part of the face region ends before the next one starts.
pub proof fn lemma_face_layout_ordered(face_count: nat)
    ensures
        faces_size_of(face_count) <= solvers_offset_of(face_count),
        solvers_offset_of(face_count) <= face_region_size(face_count),
{
    lemma_align_up(faces_size_of(face_count));
}

/// Every sub-region offset is a multiple of 256, and each one after the first
/// in its region is the aligned end of the sub-region before it.
pub proof fn lemma_offsets_aligned(vertex_count: nat, face_count: nat)
    ensures
        positions_offset_of(vertex_count) % 256 == 0,
        tex_coords_offset_of(vertex_count) % 256 == 0,
        normals_offset_of(vertex_count) % 256 == 0,
        faces_offset_of(face_count) % 256 == 0,
        solvers_offset_of(face_count) % 256 == 0,
        tex_coords_offset_of(vertex_count) == align_up(
            positions_offset_of(vertex_count) + positions_size_of(vertex_count),
        ),
        normals_offset_of(vertex_count) == align_up(
            tex_coords_offset_of(vertex_count) + tex_coords_size_of(vertex_count),
        ),
        solvers_offset_of(face_count) == align_up(
            faces_offset_of(face_count) + faces_size_of(face_count),
        ),
{
    lemma_align_up(positions_size_of(vertex_count));
    lemma_align_up(tex_coords_offset_of(vertex_count) + tex_coords_size_of(vertex_count));
    lemma_align_up(faces_size_of(face_count));
}

/// Reading a packed bundle back through its offsets and sizes covers each
/// region exactly: the sub-ranges follow one another without overlap, each
/// gap between them is padding shorter than one alignment step, and the last
/// sub-range ends where the region ends.
pub proof fn lemma_regions_tile(vertex_count: nat, face_count: nat)
    ensures
        positions_offset_of(vertex_count) == 0,
        positions_offset_of(vertex_count) + positions_size_of(vertex_count)
            <= tex_coords_offset_of(vertex_count),
        tex_coords_offset_of(vertex_count) < positions_offset_of(vertex_count)
            + positions_size_of(vertex_count) + 256,
        tex_coords_offset_of(vertex_count) + tex_coords_size_of(vertex_count)
            <= normals_offset_of(vertex_count),
        normals_offset_of(vertex_count) < tex_coords_offset_of(vertex_count)
            + tex_coords_size_of(vertex_count) + 256,
        vertex_region_size(vertex_count) == normals_offset_of(vertex_count) + normals_size_of(
            vertex_count,
        ),
        faces_offset_of(face_count) == 0,
        faces_offset_of(face_count) + faces_size_of(face_count) <= solvers_offset_of(face_count),
        solvers_offset_of(face_count) < faces_offset_of(face_count) + faces_size_of(face_count)
            + 256,
        face_region_size(face_count) == solvers_offset_of(face_count) + solvers_size_of(
            face_count,
        ),
{
    lemma_align_up(positions_size_of(vertex_count));
    lemma_align_up(tex_coords_offset_of(vertex_count) + tex_coords_size_of(vertex_count));
    lemma_align_up(faces_size_of(face_count));
}

/// Rounds `offset` up to the next multiple of 256.
pub fn align(offset: usize) -> (r: usize)
    requires
        align_up(offset as nat) <= usize::MAX,
    ensures
        r == align_up(offset as nat),
        r % 256 == 0,
        offset <= r < offset + 256,
{
    reveal(align_up);
    if offset % ALIGNMENT == 0 {
        offset
    } else {
        offset + (ALIGNMENT - offset % ALIGNMENT)
    }
}

/// Rounds `offset` up to the next multiple of 256, or `None` where that does
/// not fit in a `usize`.
pub fn checked_align(offset: usize) -> (r: Option<usize>)
    ensures
        r.is_some() <==> align_up(offset as nat) <= usize::MAX,
        r.is_some() ==> r.unwrap() == align_up(offset as nat),
{
    reveal(align_up);
    if offset % ALIGNMENT == 0 {
        Some(offset)
    } else {
        offset.checked_add(ALIGNMENT - offset % ALIGNMENT)
    }
}

/// Length of the vertex region for `vertex_count` vertices, where it fits.
pub fn vertex_region_len(vertex_count: usize) -> (r: Option<usize>)
    ensures
        r.is_some() <==> vertex_region_size(vertex_count as nat) <= usize::MAX,
        r.is_some() ==> r.unwrap() == vertex_region_size(vertex_count as nat),
{
    proof {
        lemma_vertex_layout_ordered(vertex_count as nat);
    }
    let positions = vertex_count.checked_mul(POSITION_BYTES)?;
    let tex_coords_offset = checked_align(positions)?;
    let tex_coords = vertex_count.checked_mul(TEX_COORD_BYTES)?;
    let tex_coords_end = tex_coords_offset.checked_add(tex_coords)?;
    let normals_offset = checked_align(tex_coords_end)?;
    let normals = vertex_count.checked_mul(NORMAL_BYTES)?;
    normals_offset.checked_add(normals)
}

/// Length of the face region for `face_count` faces, where it fits.
pub fn face_region_len(face_count: usize) -> (r: Option<usize>)
    ensures
        r.is_some() <==> face_region_size(face_count as nat) <= usize::MAX,
        r.is_some() ==> r.unwrap() == face_region_size(face_count as nat),
{
    proof {
        lemma_face_layout_ordered(face_count as nat);
    }
    let faces = face_count.checked_mul(FACE_BYTES)?;
    let solvers_offset = checked_align(faces)?;
    let solvers = face_count.checked_mul(SOLVER_BYTES)?;
    solvers_offset.checked_add(solvers)
}

/// What a bundle is: its counts and its bytes (the vertex region followed by
/// the face region).
pub struct MeshView {
    pub vertex_count: nat,
    pub face_count: nat,
    pub bytes: Seq<u8>,
}

/// A packed mesh bundle: the vertex region immediately followed by the face
/// region, with the counts that determine the layout of both.
pub struct Mesh<'a> {
    vertex_count: usize,
    face_count: usize,
    bytes: &'a [u8],
}

impl<'a> View for Mesh<'a> {
    type V = MeshView;

    closed spec fn view(&self) -> MeshView {
        MeshView {
            vertex_count: self.vertex_count as nat,
            face_count: self.face_count as nat,
            bytes: self.bytes@,
        }
    }
}

/// The bytes of a bundle are exactly its two regions.
pub open spec fn bundle_wf(m: MeshView) -> bool {
    m.bytes.len() == vertex_region_size(m.vertex_count) + face_region_size(m.face_count)
}

impl<'a> Mesh<'a> {
    #[verifier::type_invariant]
    closed spec fn inv(&self) -> bool {
        &&& bundle_wf(self@)
        &&& vertex_region_size(self@.vertex_count) + face_region_size(self@.face_count)
            <= usize::MAX
    }

    /// Wraps packed bytes; `None` unless their length is exactly that of the
    /// two regions the counts call for.
    pub fn new(vertex_count: usize, face_count: usize, bytes: &'a [u8]) -> (r: Option<Mesh<'a>>)
        ensures
            r.is_some() <==> bundle_wf(
                (MeshView {
                    vertex_count: vertex_count as nat,
                    face_count: face_count as nat,
                    bytes: bytes@,
                }),
            ),
            r.is_some() ==> r.unwrap()@ == (MeshView {
                vertex_count: vertex_count as nat,
                face_count: face_count as nat,
                bytes: bytes@,
            }),
    {
        let len = bytes.len();
        let v = vertex_region_len(vertex_count)?;
        let f = face_region_len(face_count)?;
        let total = v.checked_add(f)?;
        if len == total {
            Some(Mesh { vertex_count, face_count, bytes })
        } else {
            None
        }
    }

    pub fn vertex_count(&self) -> (r: usize)
        ensures
            r == self@.vertex_count,
    {
        self.vertex_count
    }

    pub fn positions_offset(&self) -> (r: usize)
        ensures
            r == positions_offset_of(self@.vertex_count),
    {
        0
    }

    pub fn positions_size(&self) -> (r: usize)
        ensures
            r == positions_size_of(self@.vertex_count),
    {
        proof {
            use_type_invariant(self);
            lemma_vertex_layout_ordered(self.vertex_count as nat);
            lemma_face_layout_ordered(self.face_count as nat);
            lemma_offsets_aligned(self.vertex_count as nat, self.face_count as nat);
        }
        self.vertex_count * POSITION_BYTES
    }

    pub fn tex_coords_offset(&self) -> (r: usize)
        ensures
            r == tex_coords_offset_of(self@.vertex_count),
            r % 256 == 0,
    {
        proof {
            use_type_invariant(self);
            lemma_vertex_layout_ordered(self.vertex_count as nat);
            lemma_face_layout_ordered(self.face_count as nat);
            lemma_offsets_aligned(self.vertex_count as nat, self.face_count as nat);
        }
        align(self.positions_offset() + self.positions_size())
    }

    pub fn tex_coords_size(&self) -> (r: usize)
        ensures
            r == tex_coords_size_of(self@.vertex_count),
    {
        proof {
            use_type_invariant(self);
            lemma_vertex_layout_ordered(self.vertex_count as nat);
            lemma_face_layout_ordered(self.face_count as nat);
            lemma_offsets_aligned(self.vertex_count as nat, self.face_count as nat);
        }
        self.vertex_count * TEX_COORD_BYTES
    }

    pub fn normals_offset(&self) -> (r: usize)
        ensures
            r == normals_offset_of(self@.vertex_count),
            r % 256 == 0,
    {
        proof {
            use_type_invariant(self);
            lemma_vertex_layout_ordered(self.vertex_count as nat);
            lemma_face_layout_ordered(self.face_count as nat);
            lemma_offsets_aligned(self.vertex_count as nat, self.face_count as nat);
        }
        align(self.tex_coords_offset() + self.tex_coords_size())
    }

    pub fn normals_size(&self) -> (r: usize)
        ensures
            r == normals_size_of(self@.vertex_count),
    {
        proof {
            use_type_invariant(self);
            lemma_vertex_layout_ordered(self.vertex_count as nat);
            lemma_face_layout_ordered(self.face_count as nat);
            lemma_offsets_aligned(self.vertex_count as nat, self.face_count as nat);
        }
        self.vertex_count * NORMAL_BYTES
    }

    pub fn vertex_buffer_size(&self) -> (r: usize)
        ensures
            r == vertex_region_size(self@.vertex_count),
    {
        proof {
            use_type_invariant(self);
            lemma_vertex_layout_ordered(self.vertex_count as nat);
            lemma_face_layout_ordered(self.face_count as nat);
            lemma_offsets_aligned(self.vertex_count as nat, self.face_count as nat);
        }
        self.normals_offset() + self.normals_size()
    }

    /// The vertex region: the first `vertex_buffer_size()` bytes.
    pub fn vertex_buffer_bytes(&self) -> (r: &'a [u8])
        ensures
            r@ == self@.bytes.subrange(0, vertex_region_size(self@.vertex_count) as int),
    {
        proof {
            use_type_invariant(self);
            lemma_vertex_layout_ordered(self.vertex_count as nat);
            lemma_face_layout_ordered(self.face_count as nat);
            lemma_offsets_aligned(self.vertex_count as nat, self.face_count as nat);
        }
        let end = self.vertex_buffer_size();
        vstd::slice::slice_subrange(self.bytes, 0, end)
    }

    pub fn face_count(&self) -> (r: usize)
        ensures
            r == self@.face_count,
    {
        self.face_count
    }

    pub fn faces_offset(&self) -> (r: usize)
        ensures
            r == faces_offset_of(self@.face_count),
    {
        0
    }

    pub fn faces_size(&self) -> (r: usize)
        ensures
            r == faces_size_of(self@.face_count),
    {
        proof {
            use_type_invariant(self);
            lemma_vertex_layout_ordered(self.vertex_count as nat);
            lemma_face_layout_ordered(self.face_count as nat);
            lemma_offsets_aligned(self.vertex_count as nat, self.face_count as nat);
        }
        self.face_count * FACE_BYTES
    }

    pub fn solvers_offset(&self) -> (r: usize)
        ensures
            r == solvers_offset_of(self@.face_count),
            r % 256 == 0,
    {
        proof {
            use_type_invariant(self);
            lemma_vertex_layout_ordered(self.vertex_count as nat);
            lemma_face_layout_ordered(self.face_count as nat);
            lemma_offsets_aligned(self.vertex_count as nat, self.face_count as nat);
        }
        align(self.faces_offset() + self.faces_size())
    }

    pub fn solvers_size(&self) -> (r: usize)
        ensures
            r == solvers_size_of(self@.face_count),
    {
        proof {
            use_type_invariant(self);
            lemma_vertex_layout_ordered(self.vertex_count as nat);
            lemma_face_layout_ordered(self.face_count as nat);
            lemma_offsets_aligned(self.vertex_count as nat, self.face_count as nat);
        }
        self.face_count * SOLVER_BYTES
    }

    pub fn face_buffer_size(&self) -> (r: usize)
        ensures
            r == face_region_size(self@.face_count),
    {
        proof {
            use_type_invariant(self);
            lemma_vertex_layout_ordered(self.vertex_count as nat);
            lemma_face_layout_ordered(self.face_count as nat);
            lemma_offsets_aligned(self.vertex_count as nat, self.face_count as nat);
        }
        self.solvers_offset() + self.solvers_size()
    }

    /// The face region: every byte after the vertex region.
    pub fn face_buffer_bytes(&self) -> (r: &'a [u8])
        ensures
            r@ == self@.bytes.subrange(
                vertex_region_size(self@.vertex_count) as int,
                self@.bytes.len() as int,
            ),
            r@.len() == face_region_size(self@.face_count),
    {
        proof {
            use_type_invariant(self);
            lemma_vertex_layout_ordered(self.vertex_count as nat);
            lemma_face_layout_ordered(self.face_count as nat);
            lemma_offsets_aligned(self.vertex_count as nat, self.face_count as nat);
        }
        let start = self.vertex_buffer_size();
        vstd::slice::slice_subrange(self.bytes, start, self.bytes.len())
    }
}

/// A raw image: its dimensions and its bytes.
pub struct Texture<'a> {
    width: usize,
    height: usize,
    bytes: &'a [u8],
}

impl<'a> Texture<'a> {
    pub fn new(width: usize, height: usize, bytes: &'a [u8]) -> (r: Texture<'a>)
        ensures
            r.spec_width() == width,
            r.spec_height() == height,
            r.spec_bytes() == bytes@,
    {
        Texture { width, height, bytes }
    }

    pub closed spec fn spec_width(&self) -> usize {
        self.width
    }

    pub closed spec fn spec_height(&self) -> usize {
        self.height
    }

    pub closed spec fn spec_bytes(&self) -> Seq<u8> {
        self.bytes@
    }

    pub fn width(&self) -> (r: usize)
        ensures
            r == self.spec_width(),
    {
        self.width
    }

    pub fn height(&self) -> (r: usize)
        ensures
            r == self.spec_height(),
    {
        self.height
    }

    pub fn bytes(&self) -> (r: &'a [u8])
        ensures
            r@ == self.spec_bytes(),
    {
        self.bytes
    }
}

} // verus!
