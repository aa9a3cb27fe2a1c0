//! Vertex deduplication and the import of a whole mesh text.
use vstd::prelude::*;
use crate::obj::{all_fit, line_shape, parse_line, ImportError, LineShape, ObjLine};
use crate::text::{split_on, split_spec, views};

verus! {

/// One corner of a face: 0-based indices into the position, texture
/// coordinate and normal arrays.
#[derive(Debug, Clone, Copy, PartialEq, Eq, Structural)]
pub struct Corner {
    pub position: usize,
    pub tex_coord: usize,
    pub normal: usize,
}

/// The distinct corners of `s`, in the order of their first occurrence.
pub open spec fn dedup_spec(s: Seq<Corner>) -> Seq<Corner>
    decreases s.len(),
{
    if s.len() == 0 {
        Seq::empty()
    } else {
        let d = dedup_spec(s.drop_last());
        if d.contains(s.last()) {
            d
        } else {
            d.push(s.last())
        }
    }
}

/// No corner occurs twice.
pub open spec fn no_duplicates(d: Seq<Corner>) -> bool {
    forall|i: int, j: int| 0 <= i < j < d.len() ==> d[i] != d[j]
}

/// The deduplicated corners are distinct, each of them occurs in the input, and
/// each corner of the input is among them.
pub proof fn lemma_dedup_spec(s: Seq<Corner>)
    ensures
        no_duplicates(dedup_spec(s)),
        forall|k: int| 0 <= k < dedup_spec(s).len() ==> s.contains(#[trigger] dedup_spec(s)[k]),
        forall|i: int| 0 <= i < s.len() ==> dedup_spec(s).contains(#[trigger] s[i]),
    decreases s.len(),
{
    if s.len() > 0 {
        let init = s.drop_last();
        lemma_dedup_spec(init);
        let d = dedup_spec(init);
        assert forall|k: int| 0 <= k < dedup_spec(s).len() implies s.contains(
            #[trigger] dedup_spec(s)[k],
        ) by {
            if k < d.len() {
                let m = choose|m: int| 0 <= m < init.len() && init[m] == d[k];
                assert(s[m] == d[k]);
            } else {
                assert(s[s.len() - 1] == s.last());
            }
        }
        assert forall|i: int| 0 <= i < s.len() implies dedup_spec(s).contains(#[trigger] s[i]) by {
            if i < s.len() - 1 {
                assert(init[i] == s[i]);
                let m = choose|m: int| 0 <= m < d.len() && d[m] == init[i];
                assert(dedup_spec(s)[m] == s[i]);
            } else if !d.contains(s.last()) {
                assert(dedup_spec(s)[d.len() as int] == s[i]);
            }
        }
    }
}

/// The position of `c` in `vertices`, if it is there.
fn find_corner(vertices: &Vec<Corner>, c: Corner) -> (r: Option<usize>)
    ensures
        r.is_some() ==> r.unwrap() < vertices@.len() && vertices@[r.unwrap() as int] == c,
        r.is_none() ==> !vertices@.contains(c),
{
    let mut i: usize = 0;
    while i < vertices.len()
        invariant
            i <= vertices@.len(),
            forall|k: int| 0 <= k < i ==> vertices@[k] != c,
        decreases vertices@.len() - i,
    {
        if vertices[i] == c {
            return Some(i);
        }
        i = i + 1;
    }
    None
}

/// Assigns each corner a vertex id: the first occurrence of an index triple
/// gets the next id, starting at 0, and a repeated triple reuses its id.
/// Returns the distinct corners (the vertices) and the id of each corner.
pub fn dedup_corners(corners: &Vec<Corner>) -> (r: (Vec<Corner>, Vec<usize>))
    ensures
        r.0@ == dedup_spec(corners@),
        r.1@.len() == corners@.len(),
        forall|i: int|
            0 <= i < corners@.len() ==> #[trigger] r.1@[i] < r.0@.len() && r.0@[r.1@[i] as int]
                == corners@[i],
{
    let mut vertices: Vec<Corner> = Vec::new();
    let mut ids: Vec<usize> = Vec::new();
    let mut i: usize = 0;
    proof {
        assert(corners@.take(0) =~= Seq::<Corner>::empty());
    }
    while i < corners.len()
        invariant
            i <= corners@.len(),
            vertices@ == dedup_spec(corners@.take(i as int)),
            ids@.len() == i,
            forall|k: int|
                0 <= k < i ==> #[trigger] ids@[k] < vertices@.len() && vertices@[ids@[k] as int]
                    == corners@[k],
        decreases corners@.len() - i,
    {
        let c = corners[i];
        proof {
            assert(corners@.take(i + 1).drop_last() =~= corners@.take(i as int));
        }
        match find_corner(&vertices, c) {
            Some(id) => {
                ids.push(id);
            },
            None => {
                vertices.push(c);
                ids.push(vertices.len() - 1);
            },
        }
        i = i + 1;
    }
    proof {
        assert(corners@.take(corners@.len() as int) =~= corners@);
    }
    (vertices, ids)
}

/// Deduplication is exact: two corners get the same id exactly when their
/// index triples are equal, and the ids used are exactly `0..N-1` where `N` is
/// the number of vertices.
pub proof fn lemma_dedup_correct(corners: Seq<Corner>, vertices: Seq<Corner>, ids: Seq<usize>)
    requires
        vertices == dedup_spec(corners),
        ids.len() == corners.len(),
        forall|i: int|
            0 <= i < corners.len() ==> #[trigger] ids[i] < vertices.len() && vertices[ids[i] as int]
                == corners[i],
    ensures
        forall|i: int, j: int|
            0 <= i < corners.len() && 0 <= j < corners.len() ==> (corners[i] == corners[j] <==> ids[i]
                == ids[j]),
        forall|v: usize| v < vertices.len() ==> #[trigger] ids.contains(v),
{
    lemma_dedup_spec(corners);
    assert forall|i: int, j: int|
        0 <= i < corners.len() && 0 <= j < corners.len() implies (corners[i] == corners[j] <==> ids[i]
            == ids[j]) by {
        let a = ids[i] as int;
        let b = ids[j] as int;
        if corners[i] == corners[j] && a != b {
            if a < b {
                assert(vertices[a] != vertices[b]);
            } else {
                assert(vertices[b] != vertices[a]);
            }
        }
    }
    assert forall|v: usize| v < vertices.len() implies #[trigger] ids.contains(v) by {
        let v = v as int;
        assert(corners.contains(vertices[v]));
        let i = choose|i: int| 0 <= i < corners.len() && corners[i] == vertices[v];
        let w = ids[i] as int;
        if w != v {
            if w < v {
                assert(vertices[w] != vertices[v]);
            } else {
                assert(vertices[v] != vertices[w]);
            }
        }
        assert(ids[i] as int == v);
    }
}

/// A line without its trailing carriage return, if it has one.
pub open spec fn strip_cr(l: Seq<u8>) -> Seq<u8> {
    if l.len() > 0 && l.last() == 13u8 {
        l.drop_last()
    } else {
        l
    }
}

/// The lines of a mesh text.
pub open spec fn text_lines(text: Seq<u8>) -> Seq<Seq<u8>> {
    split_spec(text, 10u8).map_values(|l: Seq<u8>| strip_cr(l))
}

/// What the recognised lines of a mesh text hold, in the order they come:
/// the decimal fields of the positions (three each), texture coordinates (two
/// each) and normals (three each), and the 1-based face indices (nine per face).
pub struct Collected {
    pub positions: Seq<Seq<u8>>,
    pub tex_coords: Seq<Seq<u8>>,
    pub normals: Seq<Seq<u8>>,
    pub values: Seq<nat>,
}

/// What one more line adds to what has been collected.
pub open spec fn collect_step(c: Collected, l: Seq<u8>) -> Collected {
    match line_shape(l) {
        LineShape::Position(f) => Collected { positions: c.positions + f, ..c },
        LineShape::TexCoord(f) => Collected { tex_coords: c.tex_coords + f, ..c },
        LineShape::Normal(f) => Collected { normals: c.normals + f, ..c },
        LineShape::Face(v) => Collected { values: c.values + v, ..c },
        LineShape::Other => c,
    }
}

pub open spec fn collect(lines: Seq<Seq<u8>>) -> Collected
    decreases lines.len(),
{
    if lines.len() == 0 {
        Collected {
            positions: Seq::empty(),
            tex_coords: Seq::empty(),
            normals: Seq::empty(),
            values: Seq::empty(),
        }
    } else {
        collect_step(collect(lines.drop_last()), lines.last())
    }
}

/// The `i`-th face index names an existing position, texture coordinate or
/// normal (which of them by `i % 3`).
pub open spec fn value_in_range(c: Collected, i: int) -> bool {
    1 <= c.values[i] <= if i % 3 == 0 {
        c.positions.len() / 3
    } else if i % 3 == 1 {
        c.tex_coords.len() / 2
    } else {
        c.normals.len() / 3
    }
}

pub open spec fn all_in_range(c: Collected) -> bool {
    forall|i: int| 0 <= i < c.values.len() ==> #[trigger] value_in_range(c, i)
}

/// The face corners that 1-based index values name, as 0-based corners.
pub open spec fn corners_of(values: Seq<nat>) -> Seq<Corner> {
    Seq::new(
        values.len() / 3,
        |k: int|
            Corner {
                position: (values[3 * k] - 1) as usize,
                tex_coord: (values[3 * k + 1] - 1) as usize,
                normal: (values[3 * k + 2] - 1) as usize,
            },
    )
}

/// An imported mesh: the decimal fields of its attributes (three per position,
/// two per texture coordinate, three per normal), its distinct corners (the
/// vertices) and, three per face, the vertex id of each face corner.
pub struct ObjMesh {
    pub positions: Vec<Vec<u8>>,
    pub tex_coords: Vec<Vec<u8>>,
    pub normals: Vec<Vec<u8>>,
    pub vertices: Vec<Corner>,
    pub indices: Vec<usize>,
}

impl ObjMesh {
    /// The number of distinct vertices.
    pub fn vertex_count(&self) -> (r: usize)
        ensures
            r == self.vertices@.len(),
    {
        self.vertices.len()
    }

    /// The number of faces.
    pub fn face_count(&self) -> (r: usize)
        ensures
            r == self.indices@.len() / 3,
    {
        self.indices.len() / 3
    }
}

/// Whole attributes, whole faces, and every id and index in range.
pub open spec fn mesh_wf(m: ObjMesh) -> bool {
    &&& m.positions@.len() % 3 == 0
    &&& m.tex_coords@.len() % 2 == 0
    &&& m.normals@.len() % 3 == 0
    &&& m.indices@.len() % 3 == 0
    &&& forall|i: int| 0 <= i < m.indices@.len() ==> #[trigger] m.indices@[i] < m.vertices@.len()
    &&& forall|k: int|
        0 <= k < m.vertices@.len() ==> {
            &&& (#[trigger] m.vertices@[k]).position < m.positions@.len() / 3
            &&& m.vertices@[k].tex_coord < m.tex_coords@.len() / 2
            &&& m.vertices@[k].normal < m.normals@.len() / 3
        }
}

/// `m` is what the collected lines describe, with deduplicated vertices.
pub open spec fn imported(m: ObjMesh, c: Collected) -> bool {
    let corners = corners_of(c.values);
    &&& views(m.positions@) == c.positions
    &&& views(m.tex_coords@) == c.tex_coords
    &&& views(m.normals@) == c.normals
    &&& m.vertices@ == dedup_spec(corners)
    &&& m.indices@.len() == corners.len()
    &&& forall|i: int|
        0 <= i < corners.len() ==> #[trigger] m.indices@[i] < m.vertices@.len()
            && m.vertices@[m.indices@[i] as int] == corners[i]
}

/// Recognised lines hold whole attributes and whole faces.
pub proof fn lemma_collect_whole(lines: Seq<Seq<u8>>)
    ensures
        collect(lines).values.len() % 9 == 0,
        collect(lines).positions.len() % 3 == 0,
        collect(lines).tex_coords.len() % 2 == 0,
        collect(lines).normals.len() % 3 == 0,
    decreases lines.len(),
{
    if lines.len() > 0 {
        lemma_collect_whole(lines.drop_last());
    }
}

/// Collecting the first `i` lines gives a prefix of the face indices.
pub proof fn lemma_collect_prefix(lines: Seq<Seq<u8>>, i: int)
    requires
        0 <= i <= lines.len(),
    ensures
        collect(lines.take(i)).values.len() <= collect(lines).values.len(),
        forall|k: int|
            0 <= k < collect(lines.take(i)).values.len() ==> collect(lines.take(i)).values[k]
                == #[trigger] collect(lines).values[k],
    decreases lines.len() - i,
{
    if i < lines.len() {
        lemma_collect_prefix(lines, i + 1);
        assert(lines.take(i + 1).drop_last() =~= lines.take(i));
    } else {
        assert(lines.take(i) =~= lines);
    }
}

/// The attribute fields and face indices gathered so far.
struct Gathered {
    positions: Vec<Vec<u8>>,
    tex_coords: Vec<Vec<u8>>,
    normals: Vec<Vec<u8>>,
    values: Vec<usize>,
}

spec fn gathered_view(g: Gathered) -> Collected {
    Collected {
        positions: views(g.positions@),
        tex_coords: views(g.tex_coords@),
        normals: views(g.normals@),
        values: g.values@.map_values(|v: usize| v as nat),
    }
}

/// Adds one line to what has been gathered; fails only on a face whose index
/// does not fit in a `usize`.
fn gather_line(g: &mut Gathered, line: &[u8]) -> (r: Result<(), ImportError>)
    ensures
        r.is_ok() ==> gathered_view(*final(g)) == collect_step(gathered_view(*old(g)), line@),
        r.is_err() ==> r == Err::<(), ImportError>(ImportError::ParseError) && exists|v: Seq<nat>|
            line_shape(line@) == LineShape::Face(v) && !all_fit(v),
        r.is_err() <==> exists|v: Seq<nat>| line_shape(line@) == LineShape::Face(v) && !all_fit(v),
{
    let ghost before = gathered_view(*g);
    match parse_line(line) {
        Err(e) => {
            return Err(e);
        },
        Ok(ObjLine::Position(f)) => {
            let mut f = f;
            let ghost added = views(f@);
            let ghost old_vec = g.positions@;
            g.positions.append(&mut f);
            proof {
                assert(views(g.positions@) =~= views(old_vec) + added);
            }
        },
        Ok(ObjLine::TexCoord(f)) => {
            let mut f = f;
            let ghost added = views(f@);
            let ghost old_vec = g.tex_coords@;
            g.tex_coords.append(&mut f);
            proof {
                assert(views(g.tex_coords@) =~= views(old_vec) + added);
            }
        },
        Ok(ObjLine::Normal(f)) => {
            let mut f = f;
            let ghost added = views(f@);
            let ghost old_vec = g.normals@;
            g.normals.append(&mut f);
            proof {
                assert(views(g.normals@) =~= views(old_vec) + added);
            }
        },
        Ok(ObjLine::Face(v)) => {
            let mut v = v;
            let ghost added = v@;
            let ghost old_vec = g.values@;
            g.values.append(&mut v);
            proof {
                let w = line_shape(line@)->Face_0;
                assert(gathered_view(*g).values =~= before.values + w);
            }
        },
        Ok(ObjLine::Other) => {},
    }
    proof {
        assert(gathered_view(*g) =~= collect_step(before, line@));
    }
    Ok(())
}

/// Imports a mesh text: recognised lines are collected, a face index too large
/// for a `usize` is a `ParseError`, a face index that names no existing
/// attribute is an `IndexOutOfRange`, and face corners are deduplicated into
/// vertices.
pub fn import_obj(text: &[u8]) -> (r: Result<ObjMesh, ImportError>)
    ensures
        ({
            let c = collect(text_lines(text@));
            &&& !all_fit(c.values) ==> r == Err::<ObjMesh, ImportError>(ImportError::ParseError)
            &&& all_fit(c.values) && !all_in_range(c) ==> r == Err::<ObjMesh, ImportError>(
                ImportError::IndexOutOfRange,
            )
            &&& all_fit(c.values) && all_in_range(c) ==> r.is_ok() && imported(r.unwrap(), c)
                && mesh_wf(r.unwrap())
        }),
{
    let lines = split_on(text, 10u8);
    let ghost all = text_lines(text@);
    let ghost whole = collect(all);
    let mut g = Gathered {
        positions: Vec::new(),
        tex_coords: Vec::new(),
        normals: Vec::new(),
        values: Vec::new(),
    };
    let mut i: usize = 0;
    proof {
        assert(all.take(0) =~= Seq::<Seq<u8>>::empty());
        assert(views(g.positions@) =~= Seq::<Seq<u8>>::empty());
        assert(views(g.tex_coords@) =~= Seq::<Seq<u8>>::empty());
        assert(views(g.normals@) =~= Seq::<Seq<u8>>::empty());
        assert(g.values@.map_values(|v: usize| v as nat) =~= Seq::<nat>::empty());
        assert(gathered_view(g) == collect(all.take(0)));
    }
    while i < lines.len()
        invariant
            i <= lines@.len(),
            views(lines@) == split_spec(text@, 10u8),
            all == text_lines(text@),
            whole == collect(all),
            gathered_view(g) == collect(all.take(i as int)),
        decreases lines@.len() - i,
    {
        let raw = lines[i].as_slice();
        let n = raw.len();
        let line = if n > 0 && raw[n - 1] == 13u8 {
            vstd::slice::slice_subrange(raw, 0, n - 1)
        } else {
            raw
        };
        let ghost prev = gathered_view(g);
        proof {
            assert(views(lines@)[i as int] == lines@[i as int]@);
            assert(line@ =~= strip_cr(lines@[i as int]@));
            assert(all[i as int] == line@);
            assert(all.take(i + 1).drop_last() =~= all.take(i as int));
        }
        let step = gather_line(&mut g, line);
        if step.is_err() {
            proof {
                lemma_collect_prefix(all, i + 1);
                let v = choose|v: Seq<nat>| line_shape(line@) == LineShape::Face(v) && !all_fit(v);
                let bad = choose|j: int| 0 <= j < v.len() && !(v[j] <= usize::MAX);
                assert(collect(all.take(i + 1)).values == prev.values + v);
                assert(collect(all.take(i + 1)).values[prev.values.len() + bad] == v[bad]);
                assert(whole.values[prev.values.len() + bad] == v[bad]);
                assert(!all_fit(whole.values));
            }
            return Err(ImportError::ParseError);
        }
        i = i + 1;
    }
    proof {
        assert(views(lines@).len() == lines@.len());
        assert(all.take(i as int) =~= all);
        lemma_collect_whole(all);
        assert(all_fit(whole.values)) by {
            assert forall|k: int| 0 <= k < whole.values.len() implies #[trigger] whole.values[k]
                <= usize::MAX by {
                assert(whole.values[k] == g.values@[k] as nat);
            }
        }
    }
    let Gathered { positions, tex_coords, normals, values } = g;
    let np = positions.len() / 3;
    let nt = tex_coords.len() / 2;
    let nn = normals.len() / 3;
    let mut corners: Vec<Corner> = Vec::new();
    let mut c: usize = 0;
    while c < values.len() / 3
        invariant
            values@.len() == whole.values.len(),
            values@.len() % 3 == 0,
            forall|k: int| 0 <= k < values@.len() ==> values@[k] == #[trigger] whole.values[k],
            all_fit(whole.values),
            all == text_lines(text@),
            whole == collect(all),
            np == whole.positions.len() / 3,
            nt == whole.tex_coords.len() / 2,
            nn == whole.normals.len() / 3,
            corners@.len() == c,
            c <= values@.len() / 3,
            forall|k: int| 0 <= k < 3 * c ==> #[trigger] value_in_range(whole, k),
            forall|k: int| 0 <= k < c ==> #[trigger] corners@[k] == corners_of(whole.values)[k],
        decreases values@.len() / 3 - c,
    {
        proof {
            assert((3 * c) % 3 == 0) by (nonlinear_arith);
            assert((3 * c + 1) % 3 == 1) by (nonlinear_arith);
            assert((3 * c + 2) % 3 == 2) by (nonlinear_arith);
        }
        let p = values[3 * c];
        let t = values[3 * c + 1];
        let n = values[3 * c + 2];
        if p < 1 || p > np {
            proof {
                assert(!value_in_range(whole, 3 * c as int));
            }
            return Err(ImportError::IndexOutOfRange);
        }
        if t < 1 || t > nt {
            proof {
                assert(!value_in_range(whole, 3 * c + 1));
            }
            return Err(ImportError::IndexOutOfRange);
        }
        if n < 1 || n > nn {
            proof {
                assert(!value_in_range(whole, 3 * c + 2));
            }
            return Err(ImportError::IndexOutOfRange);
        }
        corners.push(Corner { position: p - 1, tex_coord: t - 1, normal: n - 1 });
        proof {
            assert(value_in_range(whole, 3 * c as int));
            assert(value_in_range(whole, 3 * c + 1));
            assert(value_in_range(whole, 3 * c + 2));
        }
        c = c + 1;
    }
    proof {
        assert(corners@ =~= corners_of(whole.values));
    }
    let (vertices, indices) = dedup_corners(&corners);
    proof {
        lemma_dedup_spec(corners@);
        assert forall|k: int| 0 <= k < vertices@.len() implies {
            &&& (#[trigger] vertices@[k]).position < positions@.len() / 3
            &&& vertices@[k].tex_coord < tex_coords@.len() / 2
            &&& vertices@[k].normal < normals@.len() / 3
        } by {
            let j = choose|j: int| 0 <= j < corners@.len() && corners@[j] == vertices@[k];
            assert(corners@[j] == corners_of(whole.values)[j]);
            assert(value_in_range(whole, 3 * j));
            assert(value_in_range(whole, 3 * j + 1));
            assert(value_in_range(whole, 3 * j + 2));
        }
        assert(forall|k: int| 0 <= k < indices@.len() ==> #[trigger] indices@[k] < vertices@.len());
    }
    Ok(ObjMesh { positions, tex_coords, normals, vertices, indices })
}

} // verus!
