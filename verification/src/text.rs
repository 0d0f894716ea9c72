//! Whitespace tokenization of record text.
//!
//! A record is split into tokens: maximal runs of non-whitespace
//! characters, in order.  Whitespace here is the ASCII whitespace set
//! (space, tab, carriage return, line feed, vertical tab, form feed).

use vstd::prelude::*;

verus! {

/// Whether a character separates tokens (ASCII whitespace).
pub open spec fn is_space_char(c: char) -> bool {
    c == ' ' || c == '\t' || c == '\r' || c == '\n' || c == '\u{b}' || c == '\u{c}'
}

/// Length of the leading run of non-whitespace characters.
pub open spec fn token_len(s: Seq<char>) -> int
    decreases s.len(),
{
    if s.len() == 0 || is_space_char(s[0]) {
        0
    } else {
        1 + token_len(s.drop_first())
    }
}

/// The leading token length is within the sequence, and is positive
/// exactly when the sequence starts with a non-whitespace character.
pub proof fn lemma_token_len_bounds(s: Seq<char>)
    ensures
        0 <= token_len(s) <= s.len(),
        s.len() > 0 && !is_space_char(s[0]) ==> 1 <= token_len(s),
    decreases s.len(),
{
    if s.len() > 0 && !is_space_char(s[0]) {
        lemma_token_len_bounds(s.drop_first());
    }
}

/// The whitespace-separated tokens of a record, in order: the maximal
/// runs of non-whitespace characters.
pub open spec fn tokens_of(s: Seq<char>) -> Seq<Seq<char>>
    decreases s.len(),
    via tokens_of_decreases
{
    if s.len() == 0 {
        Seq::empty()
    } else if is_space_char(s[0]) {
        tokens_of(s.drop_first())
    } else {
        seq![s.take(token_len(s))] + tokens_of(s.skip(token_len(s)))
    }
}

#[via_fn]
proof fn tokens_of_decreases(s: Seq<char>) {
    lemma_token_len_bounds(s);
}

/// If the first `k` characters of `s` are non-whitespace and the run ends
/// at `k` (whitespace there, or the end of `s`), the leading token has
/// length exactly `k`.
pub proof fn lemma_token_len_is(s: Seq<char>, k: int)
    requires
        0 <= k <= s.len(),
        forall|m: int| 0 <= m < k ==> !is_space_char(s[m]),
        k == s.len() || is_space_char(s[k]),
    ensures
        token_len(s) == k,
    decreases k,
{
    if k > 0 {
        assert(!is_space_char(s[0]));
        let t = s.drop_first();
        assert forall|m: int| 0 <= m < k - 1 implies !is_space_char(t[m]) by {
            assert(t[m] == s[m + 1]);
        }
        if k - 1 < t.len() {
            assert(t[k - 1] == s[k]);
        }
        lemma_token_len_is(t, k - 1);
    }
}

/// A leading whitespace character does not change the token sequence.
pub proof fn lemma_tokens_skip_space(s: Seq<char>, i: int)
    requires
        0 <= i < s.len(),
        is_space_char(s[i]),
    ensures
        tokens_of(s.skip(i)) == tokens_of(s.skip(i + 1)),
{
    let u = s.skip(i);
    assert(u[0] == s[i]);
    assert(u.drop_first() =~= s.skip(i + 1));
}

/// If the characters of `s` from `i` (exclusive of `j`) are a maximal
/// non-whitespace run, the tokens from `i` on are that run followed by
/// the tokens from `j` on.
pub proof fn lemma_tokens_front(s: Seq<char>, i: int, j: int)
    requires
        0 <= i < j <= s.len(),
        forall|m: int| i <= m < j ==> !is_space_char(s[m]),
        j == s.len() || is_space_char(s[j]),
    ensures
        tokens_of(s.skip(i)) == seq![s.subrange(i, j)] + tokens_of(s.skip(j)),
{
    let u = s.skip(i);
    assert forall|m: int| 0 <= m < j - i implies !is_space_char(u[m]) by {
        assert(u[m] == s[i + m]);
    }
    if j - i < u.len() {
        assert(u[j - i] == s[j]);
    }
    lemma_token_len_is(u, j - i);
    assert(!is_space_char(u[0]));
    assert(u.take(j - i) =~= s.subrange(i, j));
    assert(u.skip(j - i) =~= s.skip(j));
}

/// Collects the characters of `s` into a vector.
pub fn chars_of(s: &str) -> (v: Vec<char>)
    ensures
        v@ == s@,
{
    let n: usize = s.unicode_len();
    let mut v: Vec<char> = Vec::new();
    let mut i: usize = 0;
    while i < n
        invariant
            i <= n,
            n == s@.len(),
            v@ == s@.take(i as int),
        decreases n - i,
    {
        let c = s.get_char(i);
        v.push(c);
        proof {
            assert(v@ =~= s@.take(i as int + 1));
        }
        i = i + 1;
    }
    proof {
        assert(s@.take(n as int) =~= s@);
    }
    v
}

/// Decides whether a character separates tokens.
pub fn is_space(c: char) -> (r: bool)
    ensures
        r == is_space_char(c),
{
    c == ' ' || c == '\t' || c == '\r' || c == '\n' || c == '\u{b}' || c == '\u{c}'
}

/// Splits a record into its whitespace-separated tokens.
pub fn split_tokens(s: &str) -> (r: Vec<String>)
    ensures
        r.deep_view() == tokens_of(s@),
{
    let r = split_tokens_from(s, 0);
    proof {
        assert(s@.skip(0) =~= s@);
    }
    r
}

/// Splits the suffix of `s` that starts at character `from` into tokens.
fn split_tokens_from(s: &str, from: usize) -> (r: Vec<String>)
    requires
        from <= s@.len(),
    ensures
        r.deep_view() == tokens_of(s@.skip(from as int)),
    decreases s@.len() - from,
{
    let n: usize = s.unicode_len();
    let mut i: usize = from;
    while i < n && is_space(s.get_char(i))
        invariant
            from <= i <= n,
            n == s@.len(),
            tokens_of(s@.skip(i as int)) == tokens_of(s@.skip(from as int)),
        decreases n - i,
    {
        proof {
            lemma_tokens_skip_space(s@, i as int);
        }
        i = i + 1;
    }
    if i == n {
        let r: Vec<String> = Vec::new();
        proof {
            assert(s@.skip(i as int) =~= Seq::<char>::empty());
            assert(r.deep_view() =~= Seq::<Seq<char>>::empty());
        }
        r
    } else {
        let mut j: usize = i + 1;
        while j < n && !is_space(s.get_char(j))
            invariant
                i < j <= n,
                n == s@.len(),
                forall|m: int| i <= m < j ==> !is_space_char(s@[m]),
            decreases n - j,
        {
            j = j + 1;
        }
        let tok = s.substring_char(i, j).to_owned();
        let mut rest = split_tokens_from(s, j);
        let mut r: Vec<String> = Vec::new();
        r.push(tok);
        r.append(&mut rest);
        proof {
            lemma_tokens_front(s@, i as int, j as int);
            assert(r.deep_view() =~= seq![s@.subrange(i as int, j as int)]
                + tokens_of(s@.skip(j as int)));
        }
        r
    }
}

} // verus!
