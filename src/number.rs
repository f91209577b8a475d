//! The decimal number syntax that `str::parse::<f64>` accepts, as documented for
//! `f64`'s `FromStr`: an optional sign, then `inf`, `infinity` or `nan` in any
//! letter case, or a mantissa with an optional exponent.

use vstd::prelude::*;
use crate::text::{is_digit, is_digit_char};

verus! {

pub open spec fn all_digits(s: Seq<char>) -> bool {
    forall|i: int| 0 <= i < s.len() ==> is_digit(#[trigger] s[i])
}

pub open spec fn is_sign(c: char) -> bool {
    c == '+' || c == '-'
}

pub open spec fn is_exp_marker(c: char) -> bool {
    c == 'e' || c == 'E'
}

/// `Digit+ | Digit+ '.' Digit* | Digit* '.' Digit+`
pub open spec fn is_mantissa(s: Seq<char>) -> bool {
    (s.len() > 0 && all_digits(s)) || (s.len() > 1 && exists|p: int|
        0 <= p < s.len() && #[trigger] s[p] == '.' && all_digits(s.take(p)) && all_digits(
            s.skip(p + 1),
        ))
}

/// `'e' Sign? Digit+`, the marker in either case.
pub open spec fn is_exponent(s: Seq<char>) -> bool {
    &&& s.len() >= 2
    &&& is_exp_marker(s[0])
    &&& if is_sign(s[1]) {
        s.len() > 2 && all_digits(s.skip(2))
    } else {
        all_digits(s.skip(1))
    }
}

/// `Mantissa Exponent?`
pub open spec fn is_number(s: Seq<char>) -> bool {
    is_mantissa(s) || exists|k: int|
        0 < k < s.len() && is_mantissa(s.take(k)) && #[trigger] is_exponent(s.skip(k))
}

pub open spec fn ascii_lower(c: char) -> char {
    if 'A' <= c && c <= 'Z' {
        ((c as u8) + 32) as char
    } else {
        c
    }
}

/// `inf`, `infinity` or `nan`, in any letter case.
pub open spec fn is_special(s: Seq<char>) -> bool {
    let l = s.map_values(|c: char| ascii_lower(c));
    l == seq!['i', 'n', 'f'] || l == seq!['i', 'n', 'f', 'i', 'n', 'i', 't', 'y'] || l == seq![
        'n',
        'a',
        'n',
    ]
}

/// The text is a number in the syntax that `f64`'s `FromStr` accepts.
pub open spec fn is_float_text(s: Seq<char>) -> bool {
    let body = if s.len() > 0 && is_sign(s[0]) {
        s.skip(1)
    } else {
        s
    };
    is_special(body) || is_number(body)
}

fn all_digits_exec(v: &Vec<char>) -> (r: bool)
    ensures
        r == all_digits(v@),
{
    let mut i: usize = 0;
    while i < v.len()
        invariant
            i <= v@.len(),
            forall|j: int| 0 <= j < i ==> is_digit(#[trigger] v@[j]),
        decreases v.len() - i,
    {
        if !is_digit_char(v[i]) {
            return false;
        }
        i = i + 1;
    }
    true
}

pub(crate) fn slice_of(v: &Vec<char>, lo: usize, hi: usize) -> (r: Vec<char>)
    requires
        lo <= hi <= v@.len(),
    ensures
        r@ == v@.subrange(lo as int, hi as int),
{
    let mut r: Vec<char> = Vec::new();
    let mut i: usize = lo;
    while i < hi
        invariant
            lo <= i <= hi,
            hi <= v@.len(),
            r@ == v@.subrange(lo as int, i as int),
        decreases hi - i,
    {
        r.push(v[i]);
        assert(v@.subrange(lo as int, i + 1) == v@.subrange(lo as int, i as int).push(v@[i as int]));
        i = i + 1;
    }
    r
}

fn first_dot(v: &Vec<char>) -> (r: usize)
    ensures
        r <= v@.len(),
        forall|j: int| 0 <= j < r ==> #[trigger] v@[j] != '.',
        r < v@.len() ==> v@[r as int] == '.',
{
    let mut i: usize = 0;
    while i < v.len() && v[i] != '.'
        invariant
            i <= v@.len(),
            forall|j: int| 0 <= j < i ==> #[trigger] v@[j] != '.',
        decreases v.len() - i,
    {
        i = i + 1;
    }
    i
}

fn first_exp_marker(v: &Vec<char>) -> (r: usize)
    ensures
        r <= v@.len(),
        forall|j: int| 0 <= j < r ==> !is_exp_marker(#[trigger] v@[j]),
        r < v@.len() ==> is_exp_marker(v@[r as int]),
{
    let mut i: usize = 0;
    while i < v.len() && v[i] != 'e' && v[i] != 'E'
        invariant
            i <= v@.len(),
            forall|j: int| 0 <= j < i ==> !is_exp_marker(#[trigger] v@[j]),
        decreases v.len() - i,
    {
        i = i + 1;
    }
    i
}

fn is_mantissa_exec(v: &Vec<char>) -> (r: bool)
    ensures
        r == is_mantissa(v@),
{
    let n = v.len();
    let p = first_dot(v);
    if p == n {
        let r = n > 0 && all_digits_exec(v);
        assert(!(exists|q: int| 0 <= q < n && #[trigger] v@[q] == '.'));
        r
    } else {
        assert(!is_digit(v@[p as int]));
        let before = slice_of(v, 0, p);
        let after = slice_of(v, p + 1, n);
        assert(before@ == v@.take(p as int));
        assert(after@ == v@.skip(p + 1));
        let r = n > 1 && all_digits_exec(&before) && all_digits_exec(&after);
        if !r && n > 1 {
            assert forall|q: int|
                0 <= q < n && #[trigger] v@[q] == '.' && all_digits(v@.take(q)) implies !all_digits(
                v@.skip(q + 1),
            ) by {
                if q > p {
                    assert(v@.take(q)[p as int] == '.');
                }
            }
        }
        r
    }
}

fn is_exponent_exec(v: &Vec<char>) -> (r: bool)
    ensures
        r == is_exponent(v@),
{
    let n = v.len();
    if n < 2 || (v[0] != 'e' && v[0] != 'E') {
        return false;
    }
    if v[1] == '+' || v[1] == '-' {
        let d = slice_of(v, 2, n);
        assert(d@ == v@.skip(2));
        n > 2 && all_digits_exec(&d)
    } else {
        let d = slice_of(v, 1, n);
        assert(d@ == v@.skip(1));
        all_digits_exec(&d)
    }
}

fn is_number_exec(v: &Vec<char>) -> (r: bool)
    ensures
        r == is_number(v@),
{
    let n = v.len();
    let k = first_exp_marker(v);
    if k == n {
        let r = is_mantissa_exec(v);
        assert forall|q: int| 0 < q < n implies !#[trigger] is_exponent(v@.skip(q)) by {
            assert(v@.skip(q)[0] == v@[q]);
        }
        r
    } else {
        let head = slice_of(v, 0, k);
        let tail = slice_of(v, k, n);
        assert(head@ == v@.take(k as int));
        assert(tail@ == v@.skip(k as int));
        proof {
            if is_mantissa(v@) {
                let c = v@[k as int];
                assert(is_exp_marker(c));
                if all_digits(v@) {
                    assert(is_digit(v@[k as int]));
                } else {
                    let p = choose|p: int|
                        0 <= p < v@.len() && #[trigger] v@[p] == '.' && all_digits(v@.take(p))
                            && all_digits(v@.skip(p + 1));
                    if k < p {
                        assert(v@.take(p)[k as int] == c);
                    } else {
                        assert(v@.skip(p + 1)[k - p - 1] == c);
                    }
                }
            }
        }
        let r = k > 0 && is_mantissa_exec(&head) && is_exponent_exec(&tail);
        assert forall|q: int|
            0 < q < n && is_mantissa(v@.take(q)) && #[trigger] is_exponent(v@.skip(q)) implies q
            == k by {
            assert(v@.skip(q)[0] == v@[q]);
            if q > k {
                let t = v@.take(q);
                assert(t[k as int] == v@[k as int]);
                if all_digits(t) {
                    assert(is_digit(t[k as int]));
                } else {
                    let p = choose|p: int|
                        0 <= p < t.len() && #[trigger] t[p] == '.' && all_digits(t.take(p))
                            && all_digits(t.skip(p + 1));
                    if k < p {
                        assert(t.take(p)[k as int] == t[k as int]);
                    } else {
                        assert(t.skip(p + 1)[k - p - 1] == t[k as int]);
                    }
                }
            }
        }
        r
    }
}

fn lower_ascii_char(c: char) -> (r: char)
    ensures
        r == ascii_lower(c),
{
    if 'A' <= c && c <= 'Z' {
        ((c as u8) + 32) as char
    } else {
        c
    }
}

fn lower_eq(v: &Vec<char>, w: &Vec<char>) -> (r: bool)
    ensures
        r == (v@.map_values(|c: char| ascii_lower(c)) == w@),
{
    let ghost l = v@.map_values(|c: char| ascii_lower(c));
    if v.len() != w.len() {
        assert(l.len() != w@.len());
        return false;
    }
    let mut i: usize = 0;
    while i < v.len()
        invariant
            i <= v@.len(),
            v@.len() == w@.len(),
            l == v@.map_values(|c: char| ascii_lower(c)),
            forall|j: int| 0 <= j < i ==> l[j] == #[trigger] w@[j],
        decreases v.len() - i,
    {
        if lower_ascii_char(v[i]) != w[i] {
            assert(l[i as int] != w@[i as int]);
            return false;
        }
        i = i + 1;
    }
    assert(l =~= w@);
    true
}

/// Whether `s` is text that `str::parse::<f64>` accepts.
pub fn is_float_literal(s: &Vec<char>) -> (r: bool)
    ensures
        r == is_float_text(s@),
{
    let body = if s.len() > 0 && (s[0] == '+' || s[0] == '-') {
        let b = slice_of(s, 1, s.len());
        assert(b@ == s@.skip(1));
        b
    } else {
        slice_of(s, 0, s.len())
    };
    assert(s@.subrange(0, s@.len() as int) == s@);
    let inf = vec!['i', 'n', 'f'];
    let infinity = vec!['i', 'n', 'f', 'i', 'n', 'i', 't', 'y'];
    let nan = vec!['n', 'a', 'n'];
    lower_eq(&body, &inf) || lower_eq(&body, &infinity) || lower_eq(&body, &nan) || is_number_exec(
        &body,
    )
}

} // verus!
