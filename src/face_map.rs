//! The face-ownership map: a row-major grid that records, per texel, which
//! face's texture-space triangle covers it.
use vstd::prelude::*;
use crate::pack::{lemma_words_bytes_len, push_words, words_bytes};

verus! {

/// The value of a texel that no face covers.
pub const NO_FACE: u32 = 0xffff_ffff;

/// A `width` by `height` grid of face indices below `face_count`, or
/// [`NO_FACE`].
pub struct FaceMap {
    width: usize,
    height: usize,
    face_count: u32,
    texels: Vec<u32>,
}

impl FaceMap {
    pub closed spec fn spec_width(&self) -> nat {
        self.width as nat
    }

    pub closed spec fn spec_height(&self) -> nat {
        self.height as nat
    }

    pub closed spec fn spec_face_count(&self) -> nat {
        self.face_count as nat
    }

    /// The texels, row by row.
    pub closed spec fn texels(&self) -> Seq<u32> {
        self.texels@
    }

    /// The grid has `width * height` texels, each [`NO_FACE`] or a face index
    /// below `face_count`.
    pub closed spec fn wf(&self) -> bool {
        &&& self.texels@.len() == self.width * self.height
        &&& face_count_below(self.texels@, self.face_count as nat)
    }

    /// An empty map: every texel is [`NO_FACE`]. `None` where the grid does
    /// not fit in memory.
    pub fn new(width: usize, height: usize, face_count: u32) -> (r: Option<FaceMap>)
        ensures
            r.is_some() <==> width * height <= usize::MAX,
            r.is_some() ==> {
                let m = r.unwrap();
                &&& m.wf()
                &&& m.spec_width() == width
                &&& m.spec_height() == height
                &&& m.spec_face_count() == face_count
                &&& m.texels() == Seq::new((width * height) as nat, |i: int| NO_FACE)
            },
    {
        let n = width.checked_mul(height)?;
        let mut texels: Vec<u32> = Vec::new();
        while texels.len() < n
            invariant
                texels@.len() <= n,
                forall|i: int| 0 <= i < texels@.len() ==> texels@[i] == NO_FACE,
            decreases n - texels@.len(),
        {
            texels.push(NO_FACE);
        }
        proof {
            assert(texels@ =~= Seq::new((width * height) as nat, |i: int| NO_FACE));
        }
        Some(FaceMap { width, height, face_count, texels })
    }

    pub fn width(&self) -> (r: usize)
        ensures
            r == self.spec_width(),
    {
        self.width
    }

    pub fn height(&self) -> (r: usize)
        ensures
            r == self.spec_height(),
    {
        self.height
    }

    /// Records that `face` covers texel (`x`, `y`); a later face overwrites an
    /// earlier one.
    pub fn cover(&mut self, x: usize, y: usize, face: u32)
        requires
            old(self).wf(),
            x < old(self).spec_width(),
            y < old(self).spec_height(),
            face < old(self).spec_face_count(),
        ensures
            final(self).spec_width() == old(self).spec_width(),
            final(self).spec_height() == old(self).spec_height(),
            final(self).spec_face_count() == old(self).spec_face_count(),
            final(self).texels() == old(self).texels().update(
                y * old(self).spec_width() + x,
                face,
            ),
            final(self).wf(),
            face_count_below(final(self).texels(), final(self).spec_face_count()),
    {
        let _len = self.texels.len();
        proof {
            assert(y * self.width + x < self.width * self.height) by (nonlinear_arith)
                requires
                    x < self.width,
                    y < self.height,
            ;
        }
        let i = y * self.width + x;
        self.texels.set(i, face);
    }

    /// The face recorded at texel (`x`, `y`).
    pub fn get(&self, x: usize, y: usize) -> (r: u32)
        requires
            self.wf(),
            x < self.spec_width(),
            y < self.spec_height(),
        ensures
            r == self.texels()[y * self.spec_width() + x],
            r == NO_FACE || r < self.spec_face_count(),
    {
        let _len = self.texels.len();
        proof {
            assert(y * self.width + x < self.width * self.height) by (nonlinear_arith)
                requires
                    x < self.width,
                    y < self.height,
            ;
        }
        self.texels[y * self.width + x]
    }

    /// The grid as bytes: each texel a little-endian 32-bit word, row by row.
    pub fn to_bytes(&self) -> (r: Vec<u8>)
        requires
            self.wf(),
        ensures
            r@ == words_bytes(self.texels()),
            r@.len() == 4 * self.spec_width() * self.spec_height(),
    {
        proof {
            lemma_words_bytes_len(self.texels@);
        }
        let mut out: Vec<u8> = Vec::new();
        push_words(&mut out, &self.texels);
        proof {
            assert(out@ =~= words_bytes(self.texels@));
            assert(4 * self.spec_width() * self.spec_height() == 4 * (self.width * self.height))
                by (nonlinear_arith);
        }
        out
    }
}

/// Every texel is [`NO_FACE`] or a face index below `face_count`.
pub open spec fn face_count_below(texels: Seq<u32>, face_count: nat) -> bool {
    forall|i: int| 0 <= i < texels.len() ==> #[trigger] texels[i] == NO_FACE || texels[i] < face_count
}

} // verus!
