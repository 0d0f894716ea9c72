//! The shape of a numeric field.
//!
//! A vertex coordinate or argument field is numeric when it has the shape
//! of a floating-point literal: an optional sign, then either one of the
//! special words `inf`, `infinity`, `nan` (in any letter case) or a
//! mantissa of digits with at most one decimal point and at least one
//! digit, optionally followed by an exponent marker `e` or `E`, an
//! optional sign, and at least one digit.

use vstd::prelude::*;

use crate::text::chars_of;

verus! {

/// Whether `c` is a decimal digit.
pub open spec fn is_digit(c: char) -> bool {
    '0' <= c && c <= '9'
}

/// Whether `c` is a leading or exponent sign.
pub open spec fn is_sign(c: char) -> bool {
    c == '+' || c == '-'
}

/// Whether `c` starts an exponent part.
pub open spec fn is_exp_marker(c: char) -> bool {
    c == 'e' || c == 'E'
}

/// Whether `c` is the letter `l` in either case (`u` is its upper case).
pub open spec fn char_ci(c: char, l: char, u: char) -> bool {
    c == l || c == u
}

/// The word `inf`, in any letter case.
pub open spec fn is_inf_word(t: Seq<char>) -> bool {
    t.len() == 3 && char_ci(t[0], 'i', 'I') && char_ci(t[1], 'n', 'N') && char_ci(t[2], 'f', 'F')
}

/// The word `infinity`, in any letter case.
pub open spec fn is_infinity_word(t: Seq<char>) -> bool {
    t.len() == 8 && char_ci(t[0], 'i', 'I') && char_ci(t[1], 'n', 'N') && char_ci(t[2], 'f', 'F')
        && char_ci(t[3], 'i', 'I') && char_ci(t[4], 'n', 'N') && char_ci(t[5], 'i', 'I')
        && char_ci(t[6], 't', 'T') && char_ci(t[7], 'y', 'Y')
}

/// The word `nan`, in any letter case.
pub open spec fn is_nan_word(t: Seq<char>) -> bool {
    t.len() == 3 && char_ci(t[0], 'n', 'N') && char_ci(t[1], 'a', 'A') && char_ci(t[2], 'n', 'N')
}

/// One of the special non-finite words.
pub open spec fn is_special_word(t: Seq<char>) -> bool {
    is_inf_word(t) || is_infinity_word(t) || is_nan_word(t)
}

/// A mantissa: non-empty, every character a digit or a decimal point, at
/// least one digit, and at most one decimal point.
pub open spec fn is_mantissa(t: Seq<char>) -> bool {
    t.len() > 0
    && (forall|i: int| 0 <= i < t.len() ==> is_digit(t[i]) || t[i] == '.')
    && (exists|i: int| 0 <= i < t.len() && is_digit(t[i]))
    && (forall|i: int, j: int| 0 <= i < j < t.len() ==> !(t[i] == '.' && t[j] == '.'))
}

/// A non-empty run of digits.
pub open spec fn is_digit_run(t: Seq<char>) -> bool {
    t.len() > 0 && forall|i: int| 0 <= i < t.len() ==> is_digit(t[i])
}

/// What may follow an exponent marker: an optional sign, then at least
/// one digit.
pub open spec fn is_exponent_part(t: Seq<char>) -> bool {
    if t.len() > 0 && is_sign(t[0]) {
        is_digit_run(t.drop_first())
    } else {
        is_digit_run(t)
    }
}

/// A finite decimal literal: a mantissa, optionally followed by an
/// exponent marker and an exponent part.
pub open spec fn is_decimal_literal(t: Seq<char>) -> bool {
    is_mantissa(t)
    || exists|k: int| 0 <= k < t.len() && #[trigger] is_exp_marker(t[k])
        && is_mantissa(t.take(k)) && is_exponent_part(t.skip(k + 1))
}

/// The field with a single leading sign removed, if it has one.
pub open spec fn strip_sign(s: Seq<char>) -> Seq<char> {
    if s.len() > 0 && is_sign(s[0]) {
        s.drop_first()
    } else {
        s
    }
}

/// Whether a field has the shape of a floating-point literal.
pub open spec fn is_numeric_field(s: Seq<char>) -> bool {
    is_special_word(strip_sign(s)) || is_decimal_literal(strip_sign(s))
}

/// Decides whether `c` is a decimal digit.
pub fn digit_char(c: char) -> (r: bool)
    ensures
        r == is_digit(c),
{
    '0' <= c && c <= '9'
}

/// Decides whether the suffix of `v` from `lo` is one of the special
/// non-finite words.
fn check_word(v: &Vec<char>, lo: usize) -> (r: bool)
    requires
        lo <= v@.len(),
    ensures
        r == is_special_word(v@.subrange(lo as int, v@.len() as int)),
{
    let n: usize = v.len();
    let m: usize = n - lo;
    if m == 3 {
        let inf = (v[lo] == 'i' || v[lo] == 'I')
            && (v[lo + 1] == 'n' || v[lo + 1] == 'N')
            && (v[lo + 2] == 'f' || v[lo + 2] == 'F');
        let nan = (v[lo] == 'n' || v[lo] == 'N')
            && (v[lo + 1] == 'a' || v[lo + 1] == 'A')
            && (v[lo + 2] == 'n' || v[lo + 2] == 'N');
        inf || nan
    } else if m == 8 {
        (v[lo] == 'i' || v[lo] == 'I')
            && (v[lo + 1] == 'n' || v[lo + 1] == 'N')
            && (v[lo + 2] == 'f' || v[lo + 2] == 'F')
            && (v[lo + 3] == 'i' || v[lo + 3] == 'I')
            && (v[lo + 4] == 'n' || v[lo + 4] == 'N')
            && (v[lo + 5] == 'i' || v[lo + 5] == 'I')
            && (v[lo + 6] == 't' || v[lo + 6] == 'T')
            && (v[lo + 7] == 'y' || v[lo + 7] == 'Y')
    } else {
        false
    }
}

/// Finds the first exponent marker at or after `lo`, or the length of `v`
/// if there is none.
fn find_marker(v: &Vec<char>, lo: usize) -> (r: usize)
    requires
        lo <= v@.len(),
    ensures
        lo <= r <= v@.len(),
        forall|m: int| lo <= m < r ==> !is_exp_marker(v@[m]),
        r < v@.len() ==> is_exp_marker(v@[r as int]),
{
    let n: usize = v.len();
    let mut k: usize = lo;
    while k < n && !(v[k] == 'e' || v[k] == 'E')
        invariant
            lo <= k <= n,
            n == v@.len(),
            forall|m: int| lo <= m < k ==> !is_exp_marker(v@[m]),
        decreases n - k,
    {
        k = k + 1;
    }
    k
}

/// Decides whether the characters of `v` in `[lo, hi)` form a mantissa.
fn check_mantissa(v: &Vec<char>, lo: usize, hi: usize) -> (r: bool)
    requires
        lo <= hi <= v@.len(),
    ensures
        r == is_mantissa(v@.subrange(lo as int, hi as int)),
{
    let ghost t = v@.subrange(lo as int, hi as int);
    let mut has_digit = false;
    let mut dot_seen = false;
    let ghost mut dot_pos: int = 0;
    let mut m: usize = lo;
    while m < hi
        invariant
            lo <= m <= hi <= v@.len(),
            t == v@.subrange(lo as int, hi as int),
            forall|p: int| lo <= p < m ==> is_digit(v@[p]) || v@[p] == '.',
            has_digit ==> exists|p: int| lo <= p < m && is_digit(v@[p]),
            !has_digit ==> forall|p: int| lo <= p < m ==> !is_digit(v@[p]),
            !dot_seen ==> forall|p: int| lo <= p < m ==> v@[p] != '.',
            dot_seen ==> lo <= dot_pos < m && v@[dot_pos] == '.'
                && (forall|p: int| lo <= p < m && p != dot_pos ==> v@[p] != '.'),
        decreases hi - m,
    {
        let c = v[m];
        if c == '.' {
            if dot_seen {
                proof {
                    assert(t[dot_pos - lo] == '.');
                    assert(t[m - lo] == '.');
                    assert(!is_mantissa(t));
                }
                return false;
            }
            dot_seen = true;
            proof {
                dot_pos = m as int;
            }
        } else if digit_char(c) {
            has_digit = true;
        } else {
            proof {
                assert(t[m - lo] == v@[m as int]);
                assert(!is_mantissa(t));
            }
            return false;
        }
        m = m + 1;
    }
    if has_digit {
        proof {
            assert(is_mantissa(t)) by {
                assert(t.len() > 0);
                assert forall|i: int| 0 <= i < t.len() implies is_digit(t[i]) || t[i] == '.' by {
                    assert(t[i] == v@[lo + i]);
                }
                let p = choose|p: int| lo <= p < hi && is_digit(v@[p]);
                assert(is_digit(t[p - lo]));
                assert forall|i: int, j: int| 0 <= i < j < t.len() implies !(t[i] == '.' && t[j]
                    == '.') by {
                    if t[i] == '.' && t[j] == '.' {
                        assert(v@[lo + i] == '.');
                        assert(v@[lo + j] == '.');
                    }
                }
            }
        }
        true
    } else {
        proof {
            assert(!is_mantissa(t)) by {
                assert forall|i: int| 0 <= i < t.len() implies !is_digit(t[i]) by {
                    assert(t[i] == v@[lo + i]);
                }
            }
        }
        false
    }
}

/// Decides whether the characters of `v` in `[lo, hi)` form a non-empty
/// run of digits.
fn check_digit_run(v: &Vec<char>, lo: usize, hi: usize) -> (r: bool)
    requires
        lo <= hi <= v@.len(),
    ensures
        r == is_digit_run(v@.subrange(lo as int, hi as int)),
{
    let ghost t = v@.subrange(lo as int, hi as int);
    if lo == hi {
        return false;
    }
    let mut m: usize = lo;
    while m < hi
        invariant
            lo <= m <= hi <= v@.len(),
            t == v@.subrange(lo as int, hi as int),
            forall|p: int| lo <= p < m ==> is_digit(v@[p]),
        decreases hi - m,
    {
        if !digit_char(v[m]) {
            proof {
                assert(t[m - lo] == v@[m as int]);
            }
            return false;
        }
        m = m + 1;
    }
    proof {
        assert(is_digit_run(t)) by {
            assert forall|i: int| 0 <= i < t.len() implies is_digit(t[i]) by {
                assert(t[i] == v@[lo + i]);
            }
        }
    }
    true
}

/// Decides whether the characters of `v` in `[lo, hi)` form an exponent
/// part (an optional sign, then at least one digit).
fn check_exponent(v: &Vec<char>, lo: usize, hi: usize) -> (r: bool)
    requires
        lo <= hi <= v@.len(),
    ensures
        r == is_exponent_part(v@.subrange(lo as int, hi as int)),
{
    let ghost t = v@.subrange(lo as int, hi as int);
    let start: usize = if lo < hi && (v[lo] == '+' || v[lo] == '-') {
        1 + lo
    } else {
        lo
    };
    proof {
        if lo < hi && is_sign(t[0]) {
            assert(t.drop_first() =~= v@.subrange(start as int, hi as int));
        } else {
            assert(t =~= v@.subrange(start as int, hi as int));
        }
    }
    check_digit_run(v, start, hi)
}

/// An exponent marker is neither a digit nor a decimal point, so a
/// sequence that contains one is not a mantissa.
proof fn lemma_marker_breaks_mantissa(t: Seq<char>, k: int)
    requires
        0 <= k < t.len(),
        is_exp_marker(t[k]),
    ensures
        !is_mantissa(t),
{
    assert(!is_digit(t[k]) && t[k] != '.');
    if is_mantissa(t) {
        assert(is_digit(t[k]) || t[k] == '.');
    }
}

/// With `k0` the position of the first exponent marker (or the length of
/// `t` when there is none), a decimal literal is exactly: a plain
/// mantissa when there is no marker, and otherwise a mantissa before the
/// first marker with an exponent part after it.
proof fn lemma_decimal_characterization(t: Seq<char>, k0: int)
    requires
        0 <= k0 <= t.len(),
        forall|m: int| 0 <= m < k0 ==> !is_exp_marker(t[m]),
        k0 < t.len() ==> is_exp_marker(t[k0]),
    ensures
        k0 == t.len() ==> is_decimal_literal(t) == is_mantissa(t),
        k0 < t.len() ==> is_decimal_literal(t) == (is_mantissa(t.take(k0)) && is_exponent_part(
            t.skip(k0 + 1),
        )),
{
    if k0 == t.len() {
        if is_decimal_literal(t) && !is_mantissa(t) {
            let k = choose|k: int|
                0 <= k < t.len() && #[trigger] is_exp_marker(t[k]) && is_mantissa(t.take(k))
                    && is_exponent_part(t.skip(k + 1));
            assert(false);
        }
    } else {
        lemma_marker_breaks_mantissa(t, k0);
        if is_mantissa(t.take(k0)) && is_exponent_part(t.skip(k0 + 1)) {
            assert(is_decimal_literal(t));
        }
        if is_decimal_literal(t) {
            let k = choose|k: int|
                0 <= k < t.len() && #[trigger] is_exp_marker(t[k]) && is_mantissa(t.take(k))
                    && is_exponent_part(t.skip(k + 1));
            if k > k0 {
                assert(t.take(k)[k0] == t[k0]);
                lemma_marker_breaks_mantissa(t.take(k), k0);
            }
            assert(k == k0);
        }
    }
}

/// Decides whether a field has the shape of a floating-point literal.
pub fn is_numeric(s: &str) -> (r: bool)
    ensures
        r == is_numeric_field(s@),
{
    let v = chars_of(s);
    let n: usize = v.len();
    let lo: usize = if n > 0 && (v[0] == '+' || v[0] == '-') {
        1
    } else {
        0
    };
    let ghost t = strip_sign(s@);
    proof {
        assert(t =~= v@.subrange(lo as int, n as int));
    }
    if check_word(&v, lo) {
        return true;
    }
    let k0 = find_marker(&v, lo);
    let ghost tk = k0 as int - lo as int;
    proof {
        assert forall|m: int| 0 <= m < tk implies !is_exp_marker(t[m]) by {
            assert(t[m] == v@[lo + m]);
        }
        if k0 < n {
            assert(t[tk] == v@[k0 as int]);
        }
        lemma_decimal_characterization(t, tk);
    }
    if k0 == n {
        check_mantissa(&v, lo, n)
    } else {
        let m_ok = check_mantissa(&v, lo, k0);
        proof {
            assert(t.take(tk) =~= v@.subrange(lo as int, k0 as int));
        }
        if !m_ok {
            return false;
        }
        let e_ok = check_exponent(&v, k0 + 1, n);
        proof {
            assert(t.skip(tk + 1) =~= v@.subrange(k0 as int + 1, n as int));
        }
        e_ok
    }
}

} // verus!
