//! Classification and rendering of vertex records.
//!
//! A record is a vertex record exactly when it has four
//! whitespace-separated tokens, the first token is the tag `v` or
//! `vertex`, and the other three are numeric fields.  Every other record
//! passes through the filter unchanged.  That policy covers malformed
//! vertex-like records too: a record with a vertex tag whose coordinate
//! fields are not all numeric is passed through byte for byte rather
//! than failing the stream.  A transformed vertex record is rendered
//! back as the tag and the three coordinate fields joined by single
//! spaces.

use vstd::prelude::*;

use crate::numeric::{is_numeric, is_numeric_field, is_special_word, is_decimal_literal,
    is_mantissa, is_exponent_part, is_digit, is_sign, is_exp_marker, strip_sign};
use crate::text::{tokens_of, is_space_char, split_tokens, lemma_token_len_is};

verus! {

/// Whether a token is a vertex tag.
pub open spec fn is_vertex_tag(t: Seq<char>) -> bool {
    t == "v"@ || t == "vertex"@
}

/// Whether a record is a vertex record: four tokens, a vertex tag, and
/// three numeric coordinate fields.
pub open spec fn is_vertex_record(s: Seq<char>) -> bool {
    let toks = tokens_of(s);
    toks.len() == 4 && is_vertex_tag(toks[0]) && is_numeric_field(toks[1]) && is_numeric_field(
        toks[2],
    ) && is_numeric_field(toks[3])
}

/// What the filter does with one input record.
pub enum Record {
    /// Not a vertex record: the record is emitted unchanged; the carried
    /// text is the input record itself.
    Passthrough(String),
    /// A vertex record: the tag and the three coordinate fields, to be
    /// transformed and re-rendered.
    Vertex { tag: String, x: String, y: String, z: String },
}

/// Classifies one input record.  A vertex record is taken apart into its
/// tag and coordinate fields; any other record is passed through with its
/// text unchanged.
pub fn classify_record(line: &str) -> (r: Record)
    ensures
        is_vertex_record(line@) ==> (r matches Record::Vertex { tag, x, y, z } && tag@ == tokens_of(
            line@,
        )[0] && x@ == tokens_of(line@)[1] && y@ == tokens_of(line@)[2] && z@ == tokens_of(
            line@,
        )[3]),
        !is_vertex_record(line@) ==> (r matches Record::Passthrough(orig) && orig@ == line@),
{
    let mut toks = split_tokens(line);
    proof {
        assert(toks@.len() == tokens_of(line@).len());
        assert forall|i: int| 0 <= i < toks@.len() implies toks@[i]@ == tokens_of(line@)[i] by {
            assert(toks.deep_view()[i] == toks@[i]@);
        }
    }
    if toks.len() != 4 {
        return Record::Passthrough(line.to_owned());
    }
    let tag_v = String::from_str("v");
    let tag_vertex = String::from_str("vertex");
    let tag_ok = toks[0] == tag_v || toks[0] == tag_vertex;
    if !tag_ok {
        return Record::Passthrough(line.to_owned());
    }
    if !is_numeric(toks[1].as_str()) {
        return Record::Passthrough(line.to_owned());
    }
    if !is_numeric(toks[2].as_str()) {
        return Record::Passthrough(line.to_owned());
    }
    if !is_numeric(toks[3].as_str()) {
        return Record::Passthrough(line.to_owned());
    }
    let z = toks.pop().unwrap();
    let y = toks.pop().unwrap();
    let x = toks.pop().unwrap();
    let tag = toks.pop().unwrap();
    Record::Vertex { tag, x, y, z }
}

/// Renders a transformed vertex record: the tag and the three coordinate
/// fields joined by single spaces.
pub fn render_vertex(tag: &str, x: &str, y: &str, z: &str) -> (r: String)
    ensures
        r@ == tag@ + seq![' '] + x@ + seq![' '] + y@ + seq![' '] + z@,
{
    let mut out = tag.to_owned();
    out.append(" ");
    out.append(x);
    out.append(" ");
    out.append(y);
    out.append(" ");
    out.append(z);
    proof {
        reveal_strlit(" ");
        assert(" "@ =~= seq![' ']);
    }
    out
}

/// Whether a token is free of whitespace.
pub open spec fn no_space(t: Seq<char>) -> bool {
    forall|i: int| 0 <= i < t.len() ==> !is_space_char(t[i])
}

/// A non-empty whitespace-free run followed by whitespace (or by the end)
/// is the first token, and the rest tokenizes on its own.
proof fn lemma_tokens_token_prefix(u: Seq<char>, rest: Seq<char>)
    requires
        u.len() > 0,
        no_space(u),
        rest.len() == 0 || is_space_char(rest[0]),
    ensures
        tokens_of(u + rest) == seq![u] + tokens_of(rest),
{
    let s = u + rest;
    assert forall|m: int| 0 <= m < u.len() implies !is_space_char(s[m]) by {
        assert(s[m] == u[m]);
    }
    if (u.len() as int) < s.len() {
        assert(s[u.len() as int] == rest[0]);
    }
    lemma_token_len_is(s, u.len() as int);
    assert(!is_space_char(s[0]));
    assert(s.take(u.len() as int) =~= u);
    assert(s.skip(u.len() as int) =~= rest);
}

/// A leading space does not change the tokens.
proof fn lemma_tokens_space_prefix(rest: Seq<char>)
    ensures
        tokens_of(seq![' '] + rest) == tokens_of(rest),
{
    let s = seq![' '] + rest;
    assert(s[0] == ' ');
    assert(s.drop_first() =~= rest);
}

/// Joining four non-empty whitespace-free tokens with single spaces
/// yields text whose tokens are exactly those four.
pub proof fn lemma_render_tokens(tag: Seq<char>, x: Seq<char>, y: Seq<char>, z: Seq<char>)
    requires
        tag.len() > 0,
        no_space(tag),
        x.len() > 0,
        no_space(x),
        y.len() > 0,
        no_space(y),
        z.len() > 0,
        no_space(z),
    ensures
        tokens_of(tag + seq![' '] + x + seq![' '] + y + seq![' '] + z) == seq![tag, x, y, z],
{
    let sp = seq![' '];
    let t3 = z;
    let u2 = sp + t3;
    let t2 = y + u2;
    let u1 = sp + t2;
    let t1 = x + u1;
    let u0 = sp + t1;
    let t0 = tag + u0;
    assert(z + Seq::<char>::empty() =~= z);
    lemma_tokens_token_prefix(z, Seq::empty());
    assert(tokens_of(t3) =~= seq![z]);
    lemma_tokens_space_prefix(t3);
    lemma_tokens_token_prefix(y, u2);
    assert(tokens_of(t2) =~= seq![y, z]);
    lemma_tokens_space_prefix(t2);
    lemma_tokens_token_prefix(x, u1);
    assert(tokens_of(t1) =~= seq![x, y, z]);
    lemma_tokens_space_prefix(t1);
    lemma_tokens_token_prefix(tag, u0);
    assert(tokens_of(t0) =~= seq![tag, x, y, z]);
    assert(t0 =~= tag + sp + x + sp + y + sp + z);
}

/// Every character of a special word, a mantissa, or an exponent form is
/// a letter, digit, sign, point or marker, never whitespace.
proof fn lemma_numeric_core_char(t: Seq<char>, i: int)
    requires
        0 <= i < t.len(),
        is_special_word(t) || is_decimal_literal(t),
    ensures
        !is_space_char(t[i]),
{
    if is_special_word(t) {
    } else if is_mantissa(t) {
        assert(is_digit(t[i]) || t[i] == '.');
    } else {
        let k = choose|k: int|
            0 <= k < t.len() && #[trigger] is_exp_marker(t[k]) && is_mantissa(t.take(k))
                && is_exponent_part(t.skip(k + 1));
        if i < k {
            assert(t.take(k)[i] == t[i]);
            assert(is_digit(t[i]) || t[i] == '.');
        } else if i == k {
        } else {
            let u = t.skip(k + 1);
            assert(u[i - k - 1] == t[i]);
            if u.len() > 0 && is_sign(u[0]) {
                if i - k - 1 > 0 {
                    assert(u.drop_first()[i - k - 2] == u[i - k - 1]);
                    assert(is_digit(u[i - k - 1]));
                }
            } else {
                assert(is_digit(u[i - k - 1]));
            }
        }
    }
}

/// A numeric field is a non-empty token: it has at least one character
/// and no whitespace.
pub proof fn lemma_numeric_field_token_shape(s: Seq<char>)
    requires
        is_numeric_field(s),
    ensures
        s.len() > 0,
        no_space(s),
{
    let t = strip_sign(s);
    assert(t.len() > 0) by {
        if t.len() == 0 {
            assert(!is_special_word(t));
            assert(!is_mantissa(t));
            if is_decimal_literal(t) {
                let k = choose|k: int|
                    0 <= k < t.len() && #[trigger] is_exp_marker(t[k]) && is_mantissa(t.take(k))
                        && is_exponent_part(t.skip(k + 1));
                assert(false);
            }
        }
    }
    assert forall|i: int| 0 <= i < s.len() implies !is_space_char(s[i]) by {
        if s.len() > 0 && is_sign(s[0]) {
            if i > 0 {
                assert(t[i - 1] == s[i]);
                lemma_numeric_core_char(t, i - 1);
            }
        } else {
            lemma_numeric_core_char(t, i);
        }
    }
}

/// A rendered vertex record is itself a vertex record, and it has exactly
/// the tokens it was rendered from: a vertex tag and three numeric fields
/// survive the round trip through rendering and classification.
pub proof fn lemma_render_round_trip(tag: Seq<char>, x: Seq<char>, y: Seq<char>, z: Seq<char>)
    requires
        is_vertex_tag(tag),
        is_numeric_field(x),
        is_numeric_field(y),
        is_numeric_field(z),
    ensures
        tokens_of(tag + seq![' '] + x + seq![' '] + y + seq![' '] + z) == seq![tag, x, y, z],
        is_vertex_record(tag + seq![' '] + x + seq![' '] + y + seq![' '] + z),
{
    assert(tag.len() > 0 && no_space(tag)) by {
        reveal_strlit("v");
        reveal_strlit("vertex");
    }
    lemma_numeric_field_token_shape(x);
    lemma_numeric_field_token_shape(y);
    lemma_numeric_field_token_shape(z);
    lemma_render_tokens(tag, x, y, z);
}

} // verus!
