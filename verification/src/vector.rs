//! Decomposition of vector and reference-line arguments.
//!
//! A vector argument is three comma-separated numeric fields.  A
//! reference-line argument is two whitespace-separated vector arguments:
//! the origin and the heading of the line.

use vstd::prelude::*;

use crate::numeric::{is_numeric, is_numeric_field};
use crate::text::{chars_of, tokens_of, split_tokens};

verus! {

/// How an argument fails to parse.
#[derive(Clone, Copy, PartialEq, Eq, Structural, Debug)]
pub enum ParseError {
    /// A vector argument does not have exactly three comma-separated
    /// fields.
    VectorFieldCount,
    /// A vector argument has three fields, but one of them is not
    /// numeric.
    VectorFormat,
    /// A line argument does not have exactly two whitespace-separated
    /// vectors.
    LineVectorCount,
}

impl ParseError {
    /// The diagnostic text for this error.
    pub fn message(&self) -> (m: &'static str)
        ensures
            *self == ParseError::VectorFieldCount ==> m@ == "Each vector must have exactly three coordinates"@,
            *self == ParseError::VectorFormat ==> m@ == "Invalid vector format"@,
            *self == ParseError::LineVectorCount ==> m@ == "Each line must be defined by exactly two vectors"@,
    {
        match self {
            ParseError::VectorFieldCount => "Each vector must have exactly three coordinates",
            ParseError::VectorFormat => "Invalid vector format",
            ParseError::LineVectorCount => "Each line must be defined by exactly two vectors",
        }
    }
}

/// Whether a field is free of commas.
pub open spec fn no_comma(t: Seq<char>) -> bool {
    forall|i: int| 0 <= i < t.len() ==> t[i] != ','
}

/// Whether `a`, `b`, `c` are the three comma-separated fields of `s`.
pub open spec fn splits3(s: Seq<char>, a: Seq<char>, b: Seq<char>, c: Seq<char>) -> bool {
    s == a + seq![','] + b + seq![','] + c && no_comma(a) && no_comma(b) && no_comma(c)
}

/// Whether `s` has exactly three comma-separated fields.
pub open spec fn has_three_fields(s: Seq<char>) -> bool {
    exists|a: Seq<char>, b: Seq<char>, c: Seq<char>| #[trigger] splits3(s, a, b, c)
}

/// Whether `s` is a well-formed vector argument: three comma-separated
/// numeric fields.
pub open spec fn valid_vector_text(s: Seq<char>) -> bool {
    exists|a: Seq<char>, b: Seq<char>, c: Seq<char>|
        #[trigger] splits3(s, a, b, c) && is_numeric_field(a) && is_numeric_field(b)
            && is_numeric_field(c)
}

/// The three fields of a vector argument, still as text.
#[derive(Debug)]
pub struct VectorFields {
    pub x: String,
    pub y: String,
    pub z: String,
}

/// The two vector arguments of a reference-line argument, still as text.
#[derive(Debug)]
pub struct LineFields {
    pub origin: VectorFields,
    pub heading: VectorFields,
}

/// In a three-field decomposition of `s`, the commas of `s` are exactly
/// the two separators.
proof fn lemma_splits3_commas(s: Seq<char>, a: Seq<char>, b: Seq<char>, c: Seq<char>)
    requires
        splits3(s, a, b, c),
    ensures
        s.len() == a.len() + 1 + b.len() + 1 + c.len(),
        s[a.len() as int] == ',',
        s[a.len() + 1 + b.len() as int] == ',',
        forall|m: int|
            0 <= m < s.len() && s[m] == ',' ==> m == a.len() as int || m == a.len() + 1 + b.len() as int,
{
    let q1 = a.len() as int;
    let q2 = a.len() + 1 + b.len() as int;
    let ab = a + seq![','];
    let abb = ab + b;
    let abbc = abb + seq![','];
    assert(s == abbc + c);
    assert(s[q1] == ',');
    assert(s[q2] == ',');
    assert forall|m: int| 0 <= m < s.len() && s[m] == ',' implies m == q1 || m == q2 by {
        if m < q1 {
            assert(s[m] == a[m]);
        } else if q1 < m < q2 {
            assert(s[m] == b[m - q1 - 1]);
        } else if m > q2 {
            assert(s[m] == c[m - q2 - 1]);
        }
    }
}

/// A three-field decomposition is unique: the fields are determined by
/// the text.
proof fn lemma_splits3_unique(
    s: Seq<char>,
    a: Seq<char>,
    b: Seq<char>,
    c: Seq<char>,
    a2: Seq<char>,
    b2: Seq<char>,
    c2: Seq<char>,
)
    requires
        splits3(s, a, b, c),
        splits3(s, a2, b2, c2),
    ensures
        a == a2,
        b == b2,
        c == c2,
{
    lemma_splits3_commas(s, a, b, c);
    lemma_splits3_commas(s, a2, b2, c2);
    let q1 = a.len() as int;
    let q2 = a.len() + 1 + b.len() as int;
    let p1 = a2.len() as int;
    let p2 = a2.len() + 1 + b2.len() as int;
    assert(p1 == q1 || p1 == q2);
    assert(q1 == p1 || q1 == p2);
    if p1 == q2 {
        assert(s[q1] == ',');
        assert(q1 < p1);
        assert(false);
    }
    assert(p1 == q1);
    assert(p2 == q2) by {
        if p2 != q2 {
            assert(s[p2] == ',');
            assert(s[q2] == ',');
        }
    }
    assert(a =~= a2) by {
        assert forall|m: int| 0 <= m < a.len() implies a[m] == a2[m] by {
            assert(s[m] == a[m]);
            assert(s[m] == a2[m]);
        }
    }
    assert(b =~= b2) by {
        assert forall|m: int| 0 <= m < b.len() implies b[m] == b2[m] by {
            assert(s[q1 + 1 + m] == b[m]);
            assert(s[p1 + 1 + m] == b2[m]);
        }
    }
    assert(c =~= c2) by {
        assert forall|m: int| 0 <= m < c.len() implies c[m] == c2[m] by {
            assert(s[q2 + 1 + m] == c[m]);
            assert(s[p2 + 1 + m] == c2[m]);
        }
    }
}

/// Finds the first comma at or after `lo`, or the length of `v` if there
/// is none.
fn find_comma(v: &Vec<char>, lo: usize) -> (r: usize)
    requires
        lo <= v@.len(),
    ensures
        lo <= r <= v@.len(),
        forall|m: int| lo <= m < r ==> v@[m] != ',',
        r < v@.len() ==> v@[r as int] == ',',
{
    let n: usize = v.len();
    let mut k: usize = lo;
    while k < n && v[k] != ','
        invariant
            lo <= k <= n,
            n == v@.len(),
            forall|m: int| lo <= m < k ==> v@[m] != ',',
        decreases n - k,
    {
        k = k + 1;
    }
    k
}

/// Splits a vector argument into its three comma-separated fields and
/// checks that each is numeric.  Mirrors the two failure modes of the
/// argument parser: a field-count error when there are not exactly three
/// fields, and a format error when a field is not numeric.
pub fn parse_vector_fields(s: &str) -> (r: Result<VectorFields, ParseError>)
    ensures
        r matches Ok(f) ==> splits3(s@, f.x@, f.y@, f.z@) && is_numeric_field(f.x@)
            && is_numeric_field(f.y@) && is_numeric_field(f.z@),
        valid_vector_text(s@) ==> r is Ok,
        !has_three_fields(s@) ==> r == Err::<VectorFields, ParseError>(
            ParseError::VectorFieldCount,
        ),
        has_three_fields(s@) && !valid_vector_text(s@) ==> r == Err::<VectorFields, ParseError>(
            ParseError::VectorFormat,
        ),
{
    let v = chars_of(s);
    let n: usize = v.len();
    let p1 = find_comma(&v, 0);
    if p1 == n {
        proof {
            if has_three_fields(s@) {
                let (a, b, c) = choose|a: Seq<char>, b: Seq<char>, c: Seq<char>|
                    #[trigger] splits3(s@, a, b, c);
                lemma_splits3_commas(s@, a, b, c);
            }
        }
        return Err(ParseError::VectorFieldCount);
    }
    let p2 = find_comma(&v, p1 + 1);
    if p2 == n {
        proof {
            if has_three_fields(s@) {
                let (a, b, c) = choose|a: Seq<char>, b: Seq<char>, c: Seq<char>|
                    #[trigger] splits3(s@, a, b, c);
                lemma_splits3_commas(s@, a, b, c);
            }
        }
        return Err(ParseError::VectorFieldCount);
    }
    let p3 = find_comma(&v, p2 + 1);
    if p3 < n {
        proof {
            if has_three_fields(s@) {
                let (a, b, c) = choose|a: Seq<char>, b: Seq<char>, c: Seq<char>|
                    #[trigger] splits3(s@, a, b, c);
                lemma_splits3_commas(s@, a, b, c);
            }
        }
        return Err(ParseError::VectorFieldCount);
    }
    let a = s.substring_char(0, p1).to_owned();
    let b = s.substring_char(p1 + 1, p2).to_owned();
    let c = s.substring_char(p2 + 1, n).to_owned();
    proof {
        assert(s@ =~= a@ + seq![','] + b@ + seq![','] + c@);
        assert(splits3(s@, a@, b@, c@));
    }
    let a_ok = is_numeric(a.as_str());
    let b_ok = is_numeric(b.as_str());
    let c_ok = is_numeric(c.as_str());
    if a_ok && b_ok && c_ok {
        Ok(VectorFields { x: a, y: b, z: c })
    } else {
        proof {
            if valid_vector_text(s@) {
                let (a2, b2, c2) = choose|a2: Seq<char>, b2: Seq<char>, c2: Seq<char>|
                    #[trigger] splits3(s@, a2, b2, c2) && is_numeric_field(a2) && is_numeric_field(
                        b2,
                    ) && is_numeric_field(c2);
                lemma_splits3_unique(s@, a@, b@, c@, a2, b2, c2);
            }
        }
        Err(ParseError::VectorFormat)
    }
}

/// The error that a vector argument produces: a field-count error when it
/// does not have three comma-separated fields, else a format error.
pub open spec fn vector_error(s: Seq<char>) -> ParseError {
    if !has_three_fields(s) {
        ParseError::VectorFieldCount
    } else {
        ParseError::VectorFormat
    }
}

/// Splits a reference-line argument into its origin and heading vectors.
/// A line argument must be exactly two whitespace-separated vector
/// arguments; the origin vector is checked first, then the heading.
pub fn parse_line_fields(s: &str) -> (r: Result<LineFields, ParseError>)
    ensures
        tokens_of(s@).len() != 2 ==> r == Err::<LineFields, ParseError>(
            ParseError::LineVectorCount,
        ),
        tokens_of(s@).len() == 2 && !valid_vector_text(tokens_of(s@)[0]) ==> r == Err::<
            LineFields,
            ParseError,
        >(vector_error(tokens_of(s@)[0])),
        tokens_of(s@).len() == 2 && valid_vector_text(tokens_of(s@)[0]) && !valid_vector_text(
            tokens_of(s@)[1],
        ) ==> r == Err::<LineFields, ParseError>(vector_error(tokens_of(s@)[1])),
        tokens_of(s@).len() == 2 && valid_vector_text(tokens_of(s@)[0]) && valid_vector_text(
            tokens_of(s@)[1],
        ) ==> r is Ok,
        r matches Ok(f) ==> tokens_of(s@).len() == 2 && splits3(
            tokens_of(s@)[0],
            f.origin.x@,
            f.origin.y@,
            f.origin.z@,
        ) && splits3(tokens_of(s@)[1], f.heading.x@, f.heading.y@, f.heading.z@)
            && is_numeric_field(f.origin.x@) && is_numeric_field(f.origin.y@) && is_numeric_field(
            f.origin.z@,
        ) && is_numeric_field(f.heading.x@) && is_numeric_field(f.heading.y@) && is_numeric_field(
            f.heading.z@,
        ),
{
    let mut toks = split_tokens(s);
    proof {
        assert(toks@.len() == tokens_of(s@).len());
        assert forall|i: int| 0 <= i < toks@.len() implies toks@[i]@ == tokens_of(s@)[i] by {
            assert(toks.deep_view()[i] == toks@[i]@);
        }
    }
    if toks.len() != 2 {
        return Err(ParseError::LineVectorCount);
    }
    let heading_text = toks.pop().unwrap();
    let origin_text = toks.pop().unwrap();
    let origin = match parse_vector_fields(origin_text.as_str()) {
        Ok(f) => f,
        Err(e) => {
            return Err(e);
        },
    };
    let heading = match parse_vector_fields(heading_text.as_str()) {
        Ok(f) => f,
        Err(e) => {
            return Err(e);
        },
    };
    Ok(LineFields { origin, heading })
}

} // verus!
