//! The mesh-text line grammar: positions (`v x y z`), texture coordinates
//! (`vt u v`), normals (`vn x y z`) and triangular faces
//! (`f p/t/n p/t/n p/t/n`, 1-based). Any other line is ignored.
use vstd::prelude::*;
use crate::text::{
    all_digits, check_decimal, digits_value, is_decimal, is_digits, parse_usize, split_on,
    split_spec, views,
};

verus! {

/// Why an import failed.
#[derive(Debug, Clone, Copy, PartialEq, Eq, Structural)]
pub enum ImportError {
    /// A numeric field of a recognised line could not be read.
    ParseError,
    /// A face names a position, texture coordinate or normal that does not exist.
    IndexOutOfRange,
}

/// What one line of mesh text says.
pub enum LineShape {
    /// The three decimal fields of a position.
    Position(Seq<Seq<u8>>),
    /// The two decimal fields of a texture coordinate.
    TexCoord(Seq<Seq<u8>>),
    /// The three decimal fields of a normal.
    Normal(Seq<Seq<u8>>),
    /// The nine 1-based indices of a face, corner by corner
    /// (position, texture coordinate, normal).
    Face(Seq<nat>),
    /// Anything else.
    Other,
}

/// A corner field `p/t/n`: three runs of digits.
pub open spec fn is_corner_field(f: Seq<u8>) -> bool {
    let p = split_spec(f, 47u8);
    p.len() == 3 && is_digits(p[0]) && is_digits(p[1]) && is_digits(p[2])
}

pub open spec fn corner_field_values(f: Seq<u8>) -> Seq<nat> {
    let p = split_spec(f, 47u8);
    seq![digits_value(p[0]), digits_value(p[1]), digits_value(p[2])]
}

pub open spec fn tag_v() -> Seq<u8> {
    seq![118u8]
}

pub open spec fn tag_vt() -> Seq<u8> {
    seq![118u8, 116u8]
}

pub open spec fn tag_vn() -> Seq<u8> {
    seq![118u8, 110u8]
}

pub open spec fn tag_f() -> Seq<u8> {
    seq![102u8]
}

/// Fields separated by single spaces, matched against the four line shapes.
pub open spec fn line_shape(l: Seq<u8>) -> LineShape {
    let f = split_spec(l, 32u8);
    if f.len() == 4 && f[0] == tag_v() && is_decimal(f[1]) && is_decimal(f[2]) && is_decimal(
        f[3],
    ) {
        LineShape::Position(f.drop_first())
    } else if f.len() == 3 && f[0] == tag_vt() && is_decimal(f[1]) && is_decimal(f[2]) {
        LineShape::TexCoord(f.drop_first())
    } else if f.len() == 4 && f[0] == tag_vn() && is_decimal(f[1]) && is_decimal(f[2])
        && is_decimal(f[3]) {
        LineShape::Normal(f.drop_first())
    } else if f.len() == 4 && f[0] == tag_f() && is_corner_field(f[1]) && is_corner_field(f[2])
        && is_corner_field(f[3]) {
        LineShape::Face(
            corner_field_values(f[1]) + corner_field_values(f[2]) + corner_field_values(f[3]),
        )
    } else {
        LineShape::Other
    }
}

/// Every value fits in a `usize`.
pub open spec fn all_fit(v: Seq<nat>) -> bool {
    forall|i: int| 0 <= i < v.len() ==> #[trigger] v[i] <= usize::MAX
}

/// One parsed line of mesh text.
pub enum ObjLine {
    Position(Vec<Vec<u8>>),
    TexCoord(Vec<Vec<u8>>),
    Normal(Vec<Vec<u8>>),
    Face(Vec<usize>),
    Other,
}

/// Whether a parsed line is what the grammar says of `l`.
pub open spec fn line_matches(r: ObjLine, l: Seq<u8>) -> bool {
    match (r, line_shape(l)) {
        (ObjLine::Position(f), LineShape::Position(g)) => views(f@) == g,
        (ObjLine::TexCoord(f), LineShape::TexCoord(g)) => views(f@) == g,
        (ObjLine::Normal(f), LineShape::Normal(g)) => views(f@) == g,
        (ObjLine::Face(v), LineShape::Face(g)) => v@.len() == g.len() && forall|i: int|
            0 <= i < g.len() ==> v@[i] == #[trigger] g[i],
        (ObjLine::Other, LineShape::Other) => true,
        _ => false,
    }
}

fn tag_is(f: &Vec<u8>, t0: u8, t1: u8, len: usize) -> (r: bool)
    requires
        1 <= len <= 2,
    ensures
        r == (f@ == if len == 1 {
            seq![t0]
        } else {
            seq![t0, t1]
        }),
{
    if f.len() != len {
        return false;
    }
    if len == 1 {
        let r = f[0] == t0;
        proof {
            if r {
                assert(f@ =~= seq![t0]);
            }
        }
        r
    } else {
        let r = f[0] == t0 && f[1] == t1;
        proof {
            if r {
                assert(f@ =~= seq![t0, t1]);
            }
        }
        r
    }
}

/// Whether each of `fields[1..]` is a decimal number.
fn decimals_after_tag(fields: &Vec<Vec<u8>>) -> (r: bool)
    ensures
        r == forall|i: int| 1 <= i < fields@.len() ==> is_decimal(#[trigger] fields@[i]@),
{
    let mut i: usize = 1;
    while i < fields.len()
        invariant
            1 <= i,
            forall|k: int| 1 <= k < i && k < fields@.len() ==> is_decimal(#[trigger] fields@[k]@),
        decreases fields@.len() - i,
    {
        if !check_decimal(fields[i].as_slice()) {
            return false;
        }
        i = i + 1;
    }
    true
}

/// The three parts of a corner field, where it has that shape.
fn corner_parts(f: &Vec<u8>) -> (r: Option<Vec<Vec<u8>>>)
    ensures
        r.is_some() == is_corner_field(f@),
        r.is_some() ==> views(r.unwrap()@) == split_spec(f@, 47u8),
{
    let p = split_on(f.as_slice(), 47u8);
    if p.len() != 3 {
        return None;
    }
    proof {
        assert(views(p@)[0] == p@[0]@);
        assert(views(p@)[1] == p@[1]@);
        assert(views(p@)[2] == p@[2]@);
    }
    if all_digits(p[0].as_slice()) && all_digits(p[1].as_slice()) && all_digits(
        p[2].as_slice(),
    ) {
        Some(p)
    } else {
        None
    }
}

/// Reads one line. A face whose index does not fit in a `usize` is a
/// `ParseError`; every other line parses.
pub fn parse_line(line: &[u8]) -> (r: Result<ObjLine, ImportError>)
    ensures
        match line_shape(line@) {
            LineShape::Face(v) => if all_fit(v) {
                r.is_ok() && line_matches(r.unwrap(), line@)
            } else {
                r == Err::<ObjLine, ImportError>(ImportError::ParseError)
            },
            _ => r.is_ok() && line_matches(r.unwrap(), line@),
        },
{
    let fields = split_on(line, 32u8);
    let ghost f = split_spec(line@, 32u8);
    proof {
        assert(forall|i: int| 0 <= i < fields@.len() ==> views(fields@)[i] == fields@[i]@);
    }
    let n = fields.len();
    if n == 4 && tag_is(&fields[0], 118u8, 0u8, 1) && decimals_after_tag(&fields) {
        let mut rest = fields;
        rest.remove(0);
        proof {
            assert(views(rest@) =~= f.drop_first());
        }
        return Ok(ObjLine::Position(rest));
    }
    if n == 3 && tag_is(&fields[0], 118u8, 116u8, 2) && decimals_after_tag(&fields) {
        let mut rest = fields;
        rest.remove(0);
        proof {
            assert(views(rest@) =~= f.drop_first());
        }
        return Ok(ObjLine::TexCoord(rest));
    }
    if n == 4 && tag_is(&fields[0], 118u8, 110u8, 2) && decimals_after_tag(&fields) {
        let mut rest = fields;
        rest.remove(0);
        proof {
            assert(views(rest@) =~= f.drop_first());
        }
        return Ok(ObjLine::Normal(rest));
    }
    if n != 4 || !tag_is(&fields[0], 102u8, 0u8, 1) {
        return Ok(ObjLine::Other);
    }
    proof {
        assert(f.len() == 4);
        assert(fields@[1]@ == f[1] && fields@[2]@ == f[2] && fields@[3]@ == f[3]);
        assert(f[0] == tag_f());
        assert(tag_f()[0] != tag_v()[0]);
        assert(tag_f().len() != tag_vt().len());
        assert(tag_f().len() != tag_vn().len());
    }
    let c0 = corner_parts(&fields[1]);
    let c1 = corner_parts(&fields[2]);
    let c2 = corner_parts(&fields[3]);
    match (c0, c1, c2) {
        (Some(p0), Some(p1), Some(p2)) => {
            let ghost g = corner_field_values(f[1]) + corner_field_values(f[2])
                + corner_field_values(f[3]);
            proof {
                assert(line_shape(line@) == LineShape::Face(g));
            }
            let mut values: Vec<usize> = Vec::new();
            let mut k: usize = 0;
            while k < 9
                invariant
                    k <= 9,
                    g.len() == 9,
                    views(p0@) == split_spec(f[1], 47u8),
                    views(p1@) == split_spec(f[2], 47u8),
                    views(p2@) == split_spec(f[3], 47u8),
                    p0@.len() == 3 && p1@.len() == 3 && p2@.len() == 3,
                    f.len() == 4,
                    line_shape(line@) == LineShape::Face(g),
                    is_corner_field(f[1]) && is_corner_field(f[2]) && is_corner_field(f[3]),
                    g == corner_field_values(f[1]) + corner_field_values(f[2])
                        + corner_field_values(f[3]),
                    values@.len() == k,
                    forall|i: int| 0 <= i < k ==> values@[i] == #[trigger] g[i],
                decreases 9 - k,
            {
                let part = if k < 3 {
                    &p0[k]
                } else if k < 6 {
                    &p1[k - 3]
                } else {
                    &p2[k - 6]
                };
                proof {
                    assert(views(p0@)[(k % 3) as int] == p0@[(k % 3) as int]@);
                    assert(views(p1@)[(k % 3) as int] == p1@[(k % 3) as int]@);
                    assert(views(p2@)[(k % 3) as int] == p2@[(k % 3) as int]@);
                    assert(g[k as int] == digits_value(part@));
                }
                match parse_usize(part.as_slice()) {
                    Some(v) => values.push(v),
                    None => {
                        proof {
                            assert(is_digits(part@));
                            assert(g[k as int] > usize::MAX);
                            assert(!all_fit(g));
                        }
                        return Err(ImportError::ParseError);
                    },
                }
                k = k + 1;
            }
            proof {
                assert(all_fit(g));
            }
            Ok(ObjLine::Face(values))
        },
        _ => Ok(ObjLine::Other),
    }
}

} // verus!
