//! What holds of splitting and validating for every input.

use vstd::prelude::*;
use crate::currency::supported_codes;
use crate::money::{
    accepts, digit_separator_is, entry, numeric_part, remove_chars, run_end, split_view, standard_index, validate_view,
    IndexView,
};
use crate::number::{all_digits, is_mantissa, is_number};
use crate::text::{is_digit, is_ws, normalize};

verus! {

/// A numeric run: it starts with a digit that is no separator, and holds only
/// digits and digit-group separators.
pub open spec fn is_value_run(v: Seq<char>, seps: Set<char>) -> bool {
    &&& v.len() > 0
    &&& is_digit(v[0])
    &&& !seps.contains(v[0])
    &&& forall|k: int| 0 <= k < v.len() ==> is_digit(#[trigger] v[k]) || seps.contains(v[k])
}

/// A currency-token run: non-empty, without digits, and not starting with a
/// digit-group separator.
pub open spec fn is_token_run(t: Seq<char>, seps: Set<char>) -> bool {
    &&& t.len() > 0
    &&& !seps.contains(t[0])
    &&& forall|k: int| 0 <= k < t.len() ==> !is_digit(#[trigger] t[k])
}

proof fn lemma_run_end_at(s: Seq<char>, i: int, j: int, digits: bool, seps: Set<char>)
    requires
        0 <= i <= j <= s.len(),
        forall|k: int| i <= k < j ==> accepts(#[trigger] s[k], digits, seps),
        j == s.len() || !accepts(s[j], digits, seps),
    ensures
        run_end(s, i, digits, seps) == j,
    decreases j - i,
{
    if i < j {
        lemma_run_end_at(s, i + 1, j, digits, seps);
    }
}

proof fn lemma_remove_chars_digits(s: Seq<char>, cs: Set<char>)
    requires
        forall|k: int| 0 <= k < s.len() ==> is_digit(#[trigger] s[k]) || cs.contains(s[k]),
    ensures
        all_digits(remove_chars(s, cs)),
        (exists|k: int| 0 <= k < s.len() && !cs.contains(#[trigger] s[k])) ==> remove_chars(
            s,
            cs,
        ).len() > 0,
    decreases s.len(),
{
    if s.len() > 0 {
        let p = s.drop_last();
        assert forall|k: int| 0 <= k < p.len() implies is_digit(#[trigger] p[k]) || cs.contains(
            p[k],
        ) by {
            assert(p[k] == s[k]);
        }
        lemma_remove_chars_digits(p, cs);
        if exists|k: int| 0 <= k < s.len() && !cs.contains(#[trigger] s[k]) {
            let k = choose|k: int| 0 <= k < s.len() && !cs.contains(#[trigger] s[k]);
            if k < s.len() - 1 && cs.contains(s.last()) {
                assert(p[k] == s[k]);
            }
        }
    }
}

proof fn lemma_value_is_numeric(v: Seq<char>, seps: Set<char>)
    requires
        is_value_run(v, seps),
    ensures
        numeric_part(v, seps),
{
    lemma_remove_chars_digits(v, seps);
    let r = remove_chars(v, seps);
    assert(is_digit(r[0]));
    assert(is_mantissa(r));
    assert(is_number(r));
}

/// A value followed by a currency token, with any whitespace around or within
/// them, splits into exactly those two runs, and is a monetary amount exactly
/// when one of them is a known token.
pub proof fn lemma_value_then_token(idx: IndexView, input: Seq<char>, v: Seq<char>, t: Seq<char>)
    requires
        is_value_run(v, idx.digit_separators),
        is_token_run(t, idx.digit_separators),
        normalize(input) == v + t,
    ensures
        split_view(input, idx.digit_separators) == Some((v, t)),
        validate_view(input, idx) == (idx.tokens.contains(v) || idx.tokens.contains(t)),
{
    let seps = idx.digit_separators;
    let s = v + t;
    let n = v.len() as int;
    assert(s[0] == v[0]);
    assert forall|k: int| 0 <= k < n implies accepts(#[trigger] s[k], true, seps) by {
        assert(s[k] == v[k]);
    }
    assert(s[n] == t[0]);
    lemma_run_end_at(s, 0, n, true, seps);
    assert forall|k: int| n <= k < s.len() implies accepts(#[trigger] s[k], false, seps) by {
        assert(s[k] == t[k - n]);
    }
    lemma_run_end_at(s, n, s.len() as int, false, seps);
    assert(s.subrange(0, n) == v);
    assert(s.subrange(n, s.len() as int) == t);
    lemma_value_is_numeric(v, seps);
}

/// A currency token followed by a value, with any whitespace around or within
/// them, splits into exactly those two runs, and is a monetary amount exactly
/// when one of them is a known token.
pub proof fn lemma_token_then_value(idx: IndexView, input: Seq<char>, t: Seq<char>, v: Seq<char>)
    requires
        is_value_run(v, idx.digit_separators),
        is_token_run(t, idx.digit_separators),
        normalize(input) == t + v,
    ensures
        split_view(input, idx.digit_separators) == Some((t, v)),
        validate_view(input, idx) == (idx.tokens.contains(t) || idx.tokens.contains(v)),
{
    let seps = idx.digit_separators;
    let s = t + v;
    let n = t.len() as int;
    assert(s[0] == t[0]);
    assert forall|k: int| 0 <= k < n implies accepts(#[trigger] s[k], false, seps) by {
        assert(s[k] == t[k]);
    }
    assert(s[n] == v[0]);
    lemma_run_end_at(s, 0, n, false, seps);
    assert forall|k: int| n <= k < s.len() implies accepts(#[trigger] s[k], true, seps) by {
        assert(s[k] == v[k - n]);
    }
    lemma_run_end_at(s, n, s.len() as int, true, seps);
    assert(s.subrange(0, n) == t);
    assert(s.subrange(n, s.len() as int) == v);
    lemma_value_is_numeric(v, seps);
}

proof fn lemma_normalize_keeps_no_digit(s: Seq<char>)
    requires
        forall|k: int| 0 <= k < s.len() ==> !is_digit(#[trigger] s[k]),
    ensures
        forall|k: int|
            0 <= k < normalize(s).len() ==> !is_digit(#[trigger] normalize(s)[k]),
    decreases s.len(),
{
    if s.len() > 0 {
        let p = s.drop_last();
        assert forall|k: int| 0 <= k < p.len() implies !is_digit(#[trigger] p[k]) by {
            assert(p[k] == s[k]);
        }
        lemma_normalize_keeps_no_digit(p);
        if !is_ws(s.last()) {
            let r = normalize(s);
            assert forall|k: int| 0 <= k < r.len() implies !is_digit(#[trigger] r[k]) by {
                if k < r.len() - 1 {
                    assert(r[k] == normalize(p)[k]);
                }
            }
        }
    }
}

/// A text without a digit does not split, and is no monetary amount.
pub proof fn lemma_no_digit_rejected(idx: IndexView, input: Seq<char>)
    requires
        forall|k: int| 0 <= k < input.len() ==> !is_digit(#[trigger] input[k]),
    ensures
        split_view(input, idx.digit_separators) is None,
        !validate_view(input, idx),
{
    let seps = idx.digit_separators;
    let s = normalize(input);
    lemma_normalize_keeps_no_digit(input);
    if s.len() > 0 {
        assert(!is_digit(s[0]));
        lemma_run_end_at(s, 0, s.len() as int, false, seps);
        lemma_run_end_at(s, s.len() as int, s.len() as int, true, seps);
    }
}

proof fn lemma_normalize_concat(a: Seq<char>, b: Seq<char>)
    ensures
        normalize(a + b) == normalize(a) + normalize(b),
    decreases b.len(),
{
    if b.len() == 0 {
        assert(a + b == a);
        assert(normalize(b) == b);
        assert(normalize(a) + normalize(b) == normalize(a));
    } else {
        let b1 = b.drop_last();
        lemma_normalize_concat(a, b1);
        assert((a + b).drop_last() == a + b1);
        assert((a + b).last() == b.last());
        if !is_ws(b.last()) {
            assert(normalize(a) + normalize(b1).push(b.last()) == (normalize(a) + normalize(
                b1,
            )).push(b.last()));
        }
    }
}

proof fn lemma_normalize_of_whitespace(w: Seq<char>)
    requires
        forall|k: int| 0 <= k < w.len() ==> is_ws(#[trigger] w[k]),
    ensures
        normalize(w) == Seq::<char>::empty(),
    decreases w.len(),
{
    if w.len() > 0 {
        let p = w.drop_last();
        assert forall|k: int| 0 <= k < p.len() implies is_ws(#[trigger] p[k]) by {
            assert(p[k] == w[k]);
        }
        lemma_normalize_of_whitespace(p);
    }
}

proof fn lemma_normalize_without_whitespace(s: Seq<char>)
    requires
        forall|k: int| 0 <= k < s.len() ==> !is_ws(#[trigger] s[k]),
    ensures
        normalize(s) == s,
    decreases s.len(),
{
    if s.len() > 0 {
        let p = s.drop_last();
        assert forall|k: int| 0 <= k < p.len() implies !is_ws(#[trigger] p[k]) by {
            assert(p[k] == s[k]);
        }
        lemma_normalize_without_whitespace(p);
        assert(p.push(s.last()) == s);
    }
}

proof fn lemma_normalize_has_no_whitespace(s: Seq<char>)
    ensures
        forall|k: int| 0 <= k < normalize(s).len() ==> !is_ws(#[trigger] normalize(s)[k]),
    decreases s.len(),
{
    if s.len() > 0 {
        let p = s.drop_last();
        lemma_normalize_has_no_whitespace(p);
        if !is_ws(s.last()) {
            let r = normalize(s);
            assert forall|k: int| 0 <= k < r.len() implies !is_ws(#[trigger] r[k]) by {
                if k < r.len() - 1 {
                    assert(r[k] == normalize(p)[k]);
                }
            }
        }
    }
}

/// Whitespace only normalises: a text splits and validates as the same text
/// with its whitespace removed.
pub proof fn lemma_whitespace_removed(idx: IndexView, input: Seq<char>)
    ensures
        split_view(input, idx.digit_separators) == split_view(
            normalize(input),
            idx.digit_separators,
        ),
        validate_view(input, idx) == validate_view(normalize(input), idx),
{
    lemma_normalize_has_no_whitespace(input);
    lemma_normalize_without_whitespace(normalize(input));
}

/// Whitespace between two pieces of text, such as a value and a symbol, has no
/// effect on splitting or validating.
pub proof fn lemma_whitespace_between(idx: IndexView, a: Seq<char>, w: Seq<char>, b: Seq<char>)
    requires
        forall|k: int| 0 <= k < w.len() ==> is_ws(#[trigger] w[k]),
    ensures
        split_view(a + w + b, idx.digit_separators) == split_view(a + b, idx.digit_separators),
        validate_view(a + w + b, idx) == validate_view(a + b, idx),
{
    lemma_normalize_concat(a + w, b);
    lemma_normalize_concat(a, w);
    lemma_normalize_concat(a, b);
    lemma_normalize_of_whitespace(w);
    assert(normalize(a) + Seq::<char>::empty() == normalize(a));
}

/// The digit-group separators of the supported currencies are a comma, a
/// period or a space; so a digit is never one of them.
pub proof fn lemma_standard_digit_separators(c: char)
    requires
        standard_index().digit_separators.contains(c),
    ensures
        c == ',' || c == '.' || c == ' ',
        !is_digit(c),
{
    let j = choose|j: int|
        0 <= j < supported_codes().len() && #[trigger] entry(supported_codes(), j) is Some
            && digit_separator_is(c)(entry(supported_codes(), j)->0);
}

proof fn lemma_run_end_bounds(s: Seq<char>, i: int, digits: bool, seps: Set<char>)
    requires
        0 <= i <= s.len(),
    ensures
        i <= run_end(s, i, digits, seps) <= s.len(),
        run_end(s, i, digits, seps) < s.len() ==> !accepts(
            s[run_end(s, i, digits, seps)],
            digits,
            seps,
        ),
    decreases s.len() - i,
{
    if i < s.len() && accepts(s[i], digits, seps) {
        lemma_run_end_bounds(s, i + 1, digits, seps);
    }
}

/// A split rebuilds the text without its whitespace: both parts are
/// non-empty, joined they give that text, and exactly one of them starts with
/// a digit.
pub proof fn lemma_split_rebuilds(seps: Set<char>, input: Seq<char>)
    ensures
        split_view(input, seps) matches Some((a, b)) ==> {
            &&& a.len() > 0
            &&& b.len() > 0
            &&& a + b == normalize(input)
            &&& is_digit(a[0]) != is_digit(b[0])
        },
{
    let s = normalize(input);
    if s.len() > 0 {
        let d = is_digit(s[0]);
        lemma_run_end_bounds(s, 0, d, seps);
        let a = run_end(s, 0, d, seps);
        lemma_run_end_bounds(s, a, !d, seps);
        if split_view(input, seps) is Some {
            assert(s.subrange(0, a) + s.subrange(a, s.len() as int) == s);
            assert(s.subrange(a, s.len() as int)[0] == s[a]);
        }
    }
}

} // verus!
