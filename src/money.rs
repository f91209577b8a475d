//! The index of separators and currency tokens, and the splitter and validator
//! of monetary amounts built on it.

use vstd::prelude::*;
use crate::currency::{
    currency_codes, find_currency, iso_currency, locale_separators, separators_of,
    supported_codes, CurrencyView,
};
use crate::theorems::lemma_split_rebuilds;
use crate::number::{is_float_literal, is_float_text, slice_of};
use crate::text::{
    chars_of, is_digit, is_digit_char, normalize, string_from_chars, strip_whitespace,
};

verus! {

/// What an index holds: the digit-group separators, the exponent separators
/// and the currency tokens (symbols and ISO codes).
pub struct IndexView {
    pub digit_separators: Set<char>,
    pub exponent_separators: Set<char>,
    pub tokens: Set<Seq<char>>,
}

/// The currency listed under the `j`-th code of a table.
pub open spec fn entry(codes: Seq<&'static str>, j: int) -> Option<CurrencyView> {
    iso_currency(codes[j]@)
}

/// Some of the first `n` codes names a currency of which `p` holds.
pub open spec fn listed(codes: Seq<&'static str>, n: int, p: spec_fn(CurrencyView) -> bool) -> bool {
    exists|j: int| 0 <= j < n && #[trigger] entry(codes, j) is Some && p(entry(codes, j)->0)
}

/// The currency's locale has `c` as its digit-group separator.
pub open spec fn digit_separator_is(c: char) -> spec_fn(CurrencyView) -> bool {
    |v: CurrencyView| separators_of(v.locale).0 == c
}

/// The currency's locale has `c` as its exponent separator.
pub open spec fn exponent_separator_is(c: char) -> spec_fn(CurrencyView) -> bool {
    |v: CurrencyView| separators_of(v.locale).1 == c
}

/// The currency has `t` as its symbol or as its code.
pub open spec fn token_is(t: Seq<char>) -> spec_fn(CurrencyView) -> bool {
    |v: CurrencyView| v.symbol == t || v.iso_code == t
}

/// The index derived from a table of alpha codes: for each code that the ISO
/// data knows, its locale's two separators, its symbol and its code.
pub open spec fn index_of(codes: Seq<&'static str>) -> IndexView {
    IndexView {
        digit_separators: Set::new(
            |c: char| listed(codes, codes.len() as int, digit_separator_is(c)),
        ),
        exponent_separators: Set::new(
            |c: char| listed(codes, codes.len() as int, exponent_separator_is(c)),
        ),
        tokens: Set::new(|t: Seq<char>| listed(codes, codes.len() as int, token_is(t))),
    }
}

/// The index of the supported currencies.
pub open spec fn standard_index() -> IndexView {
    index_of(supported_codes())
}

/// A character belongs to the run that is being scanned: its digit-ness is the
/// one expected, or it is a digit-group separator.
pub open spec fn accepts(c: char, digits: bool, seps: Set<char>) -> bool {
    is_digit(c) == digits || seps.contains(c)
}

/// Where the run of accepted characters that starts at `i` ends.
pub open spec fn run_end(s: Seq<char>, i: int, digits: bool, seps: Set<char>) -> int
    decreases s.len() - i,
{
    if 0 <= i < s.len() && accepts(s[i], digits, seps) {
        run_end(s, i + 1, digits, seps)
    } else {
        i
    }
}

/// The leading and the trailing run of a whitespace-free text, where both are
/// non-empty and together make up the whole text.
pub open spec fn split_runs(s: Seq<char>, seps: Set<char>) -> Option<(Seq<char>, Seq<char>)> {
    if s.len() == 0 {
        None
    } else {
        let d = is_digit(s[0]);
        let a = run_end(s, 0, d, seps);
        let b = run_end(s, a, !d, seps);
        if a == 0 || b == a || b < s.len() {
            None
        } else {
            Some((s.subrange(0, a), s.subrange(a, b)))
        }
    }
}

/// What splitting a text gives: the runs of the text without its whitespace.
pub open spec fn split_view(input: Seq<char>, seps: Set<char>) -> Option<(Seq<char>, Seq<char>)> {
    split_runs(normalize(input), seps)
}

/// The text without the characters of `cs`.
pub open spec fn remove_chars(s: Seq<char>, cs: Set<char>) -> Seq<char>
    decreases s.len(),
{
    if s.len() == 0 {
        s
    } else if cs.contains(s.last()) {
        remove_chars(s.drop_last(), cs)
    } else {
        remove_chars(s.drop_last(), cs).push(s.last())
    }
}

/// A part reads as a number once its digit-group separators are removed.
pub open spec fn numeric_part(p: Seq<char>, seps: Set<char>) -> bool {
    is_float_text(remove_chars(p, seps))
}

/// A text is a monetary amount: it splits, one part is a known token, and one
/// part reads as a number.
pub open spec fn validate_view(input: Seq<char>, idx: IndexView) -> bool {
    match split_view(input, idx.digit_separators) {
        None => false,
        Some((a, b)) => (idx.tokens.contains(a) || idx.tokens.contains(b)) && (numeric_part(
            a,
            idx.digit_separators,
        ) || numeric_part(b, idx.digit_separators)),
    }
}

pub open spec fn pair_view(r: Option<(String, String)>) -> Option<(Seq<char>, Seq<char>)> {
    match r {
        Some((a, b)) => Some((a@, b@)),
        None => None,
    }
}

/// Separators and currency tokens, built once from the currency table and then
/// only read.
pub struct CurrencyIndex {
    digit_separators: Vec<char>,
    exponent_separators: Vec<char>,
    tokens: Vec<Vec<char>>,
}

impl View for CurrencyIndex {
    type V = IndexView;

    closed spec fn view(&self) -> IndexView {
        IndexView {
            digit_separators: Set::new(|c: char| self.digit_separators@.contains(c)),
            exponent_separators: Set::new(|c: char| self.exponent_separators@.contains(c)),
            tokens: Set::new(|t: Seq<char>| self.token_views().contains(t)),
        }
    }
}

fn contains_char(v: &Vec<char>, c: char) -> (r: bool)
    ensures
        r == v@.contains(c),
{
    let mut i: usize = 0;
    while i < v.len()
        invariant
            i <= v@.len(),
            forall|j: int| 0 <= j < i ==> #[trigger] v@[j] != c,
        decreases v.len() - i,
    {
        if v[i] == c {
            return true;
        }
        i = i + 1;
    }
    false
}

fn same_chars(a: &Vec<char>, b: &Vec<char>) -> (r: bool)
    ensures
        r == (a@ == b@),
{
    if a.len() != b.len() {
        return false;
    }
    let mut i: usize = 0;
    while i < a.len()
        invariant
            i <= a@.len(),
            a@.len() == b@.len(),
            forall|j: int| 0 <= j < i ==> #[trigger] a@[j] == b@[j],
        decreases a.len() - i,
    {
        if a[i] != b[i] {
            return false;
        }
        i = i + 1;
    }
    assert(a@ =~= b@);
    true
}

fn push_unique(v: &mut Vec<char>, c: char)
    ensures
        forall|x: char| final(v)@.contains(x) <==> (old(v)@.contains(x) || x == c),
{
    broadcast use vstd::seq_lib::lemma_seq_contains_after_push;

    if !contains_char(v, c) {
        v.push(c);
    }
}

proof fn lemma_listed_step(cs: Seq<&'static str>, i: int, p: spec_fn(CurrencyView) -> bool)
    requires
        0 <= i,
    ensures
        listed(cs, i + 1, p) == (listed(cs, i, p) || (entry(cs, i) is Some && p(entry(cs, i)->0))),
{
    if listed(cs, i + 1, p) && !(entry(cs, i) is Some && p(entry(cs, i)->0)) {
        let j = choose|j: int| 0 <= j < i + 1 && #[trigger] entry(cs, j) is Some && p(entry(cs, j)->0);
        assert(j < i);
    }
}

impl CurrencyIndex {
    closed spec fn token_views(&self) -> Seq<Seq<char>> {
        self.tokens@.map_values(|t: Vec<char>| t@)
    }

    /// Builds the index of the supported currencies.
    pub fn new() -> (r: CurrencyIndex)
        ensures
            r@ == standard_index(),
    {
        let codes = currency_codes();
        let ghost cs = codes@;
        let mut r = CurrencyIndex {
            digit_separators: Vec::new(),
            exponent_separators: Vec::new(),
            tokens: Vec::new(),
        };
        let mut i: usize = 0;
        while i < codes.len()
            invariant
                cs == codes@,
                i <= cs.len(),
                forall|c: char|
                    r.digit_separators@.contains(c) <==> listed(cs, i as int, digit_separator_is(c)),
                forall|c: char|
                    r.exponent_separators@.contains(c) <==> listed(
                        cs,
                        i as int,
                        exponent_separator_is(c),
                    ),
                forall|t: Seq<char>|
                    r.token_views().contains(t) <==> listed(cs, i as int, token_is(t)),
            decreases codes.len() - i,
        {
            let found = find_currency(codes[i]);
            assert(entry(cs, i as int) == iso_currency(codes@[i as int]@));
            let ghost before = r;
            match found {
                Some(d) => {
                    let seps = locale_separators(d.locale);
                    push_unique(&mut r.digit_separators, seps.0);
                    push_unique(&mut r.exponent_separators, seps.1);
                    r.tokens.push(chars_of(d.symbol.as_str()));
                    r.tokens.push(chars_of(d.iso_code.as_str()));
                    assert(r.token_views() =~= before.token_views().push(d.symbol@).push(
                        d.iso_code@,
                    ));
                },
                None => {},
            }
            proof {
                broadcast use vstd::seq_lib::lemma_seq_contains_after_push;

                assert forall|c: char|
                    r.digit_separators@.contains(c) <==> listed(
                        cs,
                        i + 1,
                        digit_separator_is(c),
                    ) by {
                    lemma_listed_step(cs, i as int, digit_separator_is(c));
                }
                assert forall|c: char|
                    r.exponent_separators@.contains(c) <==> listed(
                        cs,
                        i + 1,
                        exponent_separator_is(c),
                    ) by {
                    lemma_listed_step(cs, i as int, exponent_separator_is(c));
                }
                assert forall|t: Seq<char>|
                    r.token_views().contains(t) <==> listed(cs, i + 1, token_is(t)) by {
                    lemma_listed_step(cs, i as int, token_is(t));
                }
            }
            i = i + 1;
        }
        assert(r@.digit_separators =~= standard_index().digit_separators);
        assert(r@.exponent_separators =~= standard_index().exponent_separators);
        assert(r@.tokens =~= standard_index().tokens);
        r
    }

    /// Whether `c` is a digit-group separator of some supported locale.
    pub fn is_separator(&self, c: char) -> (r: bool)
        ensures
            r == self@.digit_separators.contains(c),
    {
        contains_char(&self.digit_separators, c)
    }

    /// Whether `c` is an exponent separator of some supported locale.
    pub fn is_exponent_separator(&self, c: char) -> (r: bool)
        ensures
            r == self@.exponent_separators.contains(c),
    {
        contains_char(&self.exponent_separators, c)
    }

    /// Whether `t` is a known currency symbol or ISO code.
    pub fn is_token(&self, t: &Vec<char>) -> (r: bool)
        ensures
            r == self@.tokens.contains(t@),
    {
        let mut i: usize = 0;
        while i < self.tokens.len()
            invariant
                i <= self.tokens@.len(),
                forall|j: int| 0 <= j < i ==> #[trigger] self.token_views()[j] != t@,
            decreases self.tokens.len() - i,
        {
            if same_chars(&self.tokens[i], t) {
                assert(self.token_views()[i as int] == t@);
                return true;
            }
            i = i + 1;
        }
        false
    }

    fn run_end_exec(&self, s: &Vec<char>, start: usize, digits: bool) -> (r: usize)
        requires
            start <= s@.len(),
        ensures
            r as int == run_end(s@, start as int, digits, self@.digit_separators),
            start <= r <= s@.len(),
    {
        let mut i: usize = start;
        while i < s.len() && (is_digit_char(s[i]) == digits || self.is_separator(s[i]))
            invariant
                start <= i <= s@.len(),
                run_end(s@, start as int, digits, self@.digit_separators) == run_end(
                    s@,
                    i as int,
                    digits,
                    self@.digit_separators,
                ),
            decreases s.len() - i,
        {
            i = i + 1;
        }
        i
    }

    /// Splits a whitespace-free text into its leading and trailing run.
    pub fn split_chars(&self, s: &Vec<char>) -> (r: Option<(Vec<char>, Vec<char>)>)
        ensures
            match r {
                Some((a, b)) => split_runs(s@, self@.digit_separators) == Some((a@, b@)),
                None => split_runs(s@, self@.digit_separators) is None,
            },
    {
        if s.len() == 0 {
            return None;
        }
        let d = is_digit_char(s[0]);
        let a = self.run_end_exec(s, 0, d);
        let b = self.run_end_exec(s, a, !d);
        if a == 0 || b == a || b < s.len() {
            None
        } else {
            Some((slice_of(s, 0, a), slice_of(s, a, b)))
        }
    }

    /// Splits `input`, once its whitespace is removed, into its leading and
    /// trailing run: a value and a currency designator, in either order.
    pub fn split(&self, input: &str) -> (r: Option<(String, String)>)
        ensures
            pair_view(r) == split_view(input@, self@.digit_separators),
            r matches Some((a, b)) ==> a@ + b@ == normalize(input@),
    {
        proof {
            lemma_split_rebuilds(self@.digit_separators, input@);
        }
        let s = strip_whitespace(&chars_of(input));
        match self.split_chars(&s) {
            Some((a, b)) => Some((string_from_chars(&a), string_from_chars(&b))),
            None => None,
        }
    }

    /// The part without its digit-group separators.
    pub fn remove_separators(&self, p: &Vec<char>) -> (r: Vec<char>)
        ensures
            r@ == remove_chars(p@, self@.digit_separators),
    {
        let mut r: Vec<char> = Vec::new();
        let mut i: usize = 0;
        while i < p.len()
            invariant
                i <= p@.len(),
                r@ == remove_chars(p@.take(i as int), self@.digit_separators),
            decreases p.len() - i,
        {
            let c = p[i];
            assert(p@.take(i + 1).drop_last() == p@.take(i as int));
            if !self.is_separator(c) {
                r.push(c);
            }
            i = i + 1;
        }
        assert(p@.take(p.len() as int) == p@);
        r
    }

    /// Whether `input` is a monetary amount: it splits, one of its parts is a
    /// known currency token, and one of its parts reads as a number once its
    /// digit-group separators are removed.
    pub fn validate(&self, input: &str) -> (r: bool)
        ensures
            r == validate_view(input@, self@),
    {
        let s = strip_whitespace(&chars_of(input));
        match self.split_chars(&s) {
            None => false,
            Some((a, b)) => {
                if !self.is_token(&a) && !self.is_token(&b) {
                    return false;
                }
                is_float_literal(&self.remove_separators(&a)) || is_float_literal(
                    &self.remove_separators(&b),
                )
            },
        }
    }
}

/// Splits `input` into its value and its currency designator, in the order in
/// which they stand, using the index of the supported currencies. This builds
/// the index on each call: to split many texts, build a `CurrencyIndex` once.
pub fn split(input: &str) -> (r: Option<(String, String)>)
    ensures
        pair_view(r) == split_view(input@, standard_index().digit_separators),
        r matches Some((a, b)) ==> a@ + b@ == normalize(input@),
{
    let index = CurrencyIndex::new();
    index.split(input)
}

/// Whether `input` is a monetary amount under the index of the supported
/// currencies. This builds the index on each call: to validate many texts,
/// build a `CurrencyIndex` once.
pub fn validate(input: &str) -> (r: bool)
    ensures
        r == validate_view(input@, standard_index()),
{
    let index = CurrencyIndex::new();
    index.validate(input)
}

} // verus!
