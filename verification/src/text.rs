//! Text primitives the routing rules are written in: slash trimming, case
//! folding and message building, with the facts about them that the route
//! table relies on.

use vstd::prelude::*;
use vstd::string::StringExecFns;

verus! {

/// `s` without its longest prefix made only of `c`.
pub open spec fn skip_leading(s: Seq<char>, c: char) -> Seq<char>
    decreases s.len(),
{
    if s.len() > 0 && s[0] == c {
        skip_leading(s.subrange(1, s.len() as int), c)
    } else {
        s
    }
}

/// `s` without its longest suffix made only of `c`.
pub open spec fn skip_trailing(s: Seq<char>, c: char) -> Seq<char>
    decreases s.len(),
{
    if s.len() > 0 && s.last() == c {
        skip_trailing(s.drop_last(), c)
    } else {
        s
    }
}

/// `s` with every leading and every trailing `c` removed.
pub open spec fn trimmed(s: Seq<char>, c: char) -> Seq<char> {
    skip_trailing(skip_leading(s, c), c)
}

/// `n` copies of `c`.
pub open spec fn run_of(c: char, n: nat) -> Seq<char> {
    Seq::new(n, |i: int| c)
}

/// The character of one decimal digit.
pub open spec fn digit_char(d: nat) -> char
    recommends
        d < 10,
{
    if d == 0 {
        '0'
    } else if d == 1 {
        '1'
    } else if d == 2 {
        '2'
    } else if d == 3 {
        '3'
    } else if d == 4 {
        '4'
    } else if d == 5 {
        '5'
    } else if d == 6 {
        '6'
    } else if d == 7 {
        '7'
    } else if d == 8 {
        '8'
    } else {
        '9'
    }
}

/// The decimal numeral of `n`, without sign or leading zeros.
pub open spec fn decimal(n: nat) -> Seq<char>
    decreases n,
{
    if n < 10 {
        seq![digit_char(n)]
    } else {
        decimal(n / 10).push(digit_char(n % 10))
    }
}

/// The index of the first `c` in `s`, or the length of `s` when there is
/// none.
pub open spec fn index_of(s: Seq<char>, c: char) -> int
    decreases s.len(),
{
    if s.len() == 0 || s[0] == c {
        0
    } else {
        1 + index_of(s.subrange(1, s.len() as int), c)
    }
}

/// The pieces `s` falls into when it is cut at every `sep`. There is always
/// at least one piece; pieces may be empty.
pub open spec fn pieces(s: Seq<char>, sep: char) -> Seq<Seq<char>>
    decreases s.len(),
{
    let n = index_of(s, sep);
    if n < 0 || n >= s.len() {
        seq![s]
    } else {
        seq![s.subrange(0, n)] + pieces(s.subrange(n + 1, s.len() as int), sep)
    }
}

/// What stands before the first `sep` in `s`: all of `s` when there is
/// none.
pub open spec fn head_of(s: Seq<char>, sep: char) -> Seq<char> {
    let n = index_of(s, sep);
    if n < 0 || n >= s.len() {
        s
    } else {
        s.subrange(0, n)
    }
}

/// What stands after the first `sep` in `s`, if there is a `sep`.
pub open spec fn tail_of(s: Seq<char>, sep: char) -> Option<Seq<char>> {
    let n = index_of(s, sep);
    if n < 0 || n >= s.len() {
        None
    } else {
        Some(s.subrange(n + 1, s.len() as int))
    }
}

/// A text without its leading and trailing white space, as `str::trim`
/// computes it.
pub uninterp spec fn stripped(s: Seq<char>) -> Seq<char>;

/// The number a text denotes when read as a `u16` by `str::parse`, if it
/// denotes one.
pub uninterp spec fn parsed_u16(s: Seq<char>) -> Option<u16>;

/// The upper-case form of a text, as `str::to_uppercase` computes it.
pub uninterp spec fn uppercased(s: Seq<char>) -> Seq<char>;

/// The lower-case form of a text, as `str::to_lowercase` computes it.
pub uninterp spec fn lowercased(s: Seq<char>) -> Seq<char>;

/// A text as Rust's `Debug` formatting of `str` prints it: in double quotes,
/// with the characters that need it escaped.
pub uninterp spec fn quoted(s: Seq<char>) -> Seq<char>;

/// `str::trim_start_matches` with a single character as the pattern: the
/// result is the input without its leading run of `c`.
#[verifier::external_body]
pub(crate) fn trim_start<'a>(s: &'a str, c: char) -> (r: &'a str)
    ensures
        r@ == skip_leading(s@, c),
{
    s.trim_start_matches(c)
}

/// `str::trim_end_matches` with a single character as the pattern: the
/// result is the input without its trailing run of `c`.
#[verifier::external_body]
pub(crate) fn trim_end<'a>(s: &'a str, c: char) -> (r: &'a str)
    ensures
        r@ == skip_trailing(s@, c),
{
    s.trim_end_matches(c)
}

/// `str::trim_matches` with a single character as the pattern: leading and
/// trailing runs of `c` are both removed.
#[verifier::external_body]
pub(crate) fn trim_both<'a>(s: &'a str, c: char) -> (r: &'a str)
    ensures
        r@ == trimmed(s@, c),
{
    s.trim_matches(c)
}

/// `str::to_uppercase`; the result is named by [`uppercased`].
#[verifier::external_body]
pub(crate) fn to_upper(s: &str) -> (r: String)
    ensures
        r@ == uppercased(s@),
{
    s.to_uppercase()
}

/// `str::to_lowercase`; the result is named by [`lowercased`].
#[verifier::external_body]
pub(crate) fn to_lower(s: &str) -> (r: String)
    ensures
        r@ == lowercased(s@),
{
    s.to_lowercase()
}

/// Equality of two string slices (`str`'s `PartialEq`): true exactly when
/// they hold the same characters.
#[verifier::external_body]
pub(crate) fn same_text(a: &str, b: &str) -> (r: bool)
    ensures
        r == (a@ == b@),
{
    a == b
}

/// `Debug` formatting of a `str`; the result is named by [`quoted`].
#[verifier::external_body]
pub(crate) fn debug_text(s: &str) -> (r: String)
    ensures
        r@ == quoted(s@),
{
    format!("{:?}", s)
}

/// `Display` formatting of a `u32`: its decimal numeral.
#[verifier::external_body]
pub(crate) fn decimal_text(n: u32) -> (r: String)
    ensures
        r@ == decimal(n as nat),
{
    format!("{}", n)
}

/// `str::split` with a single character as the separator, each piece
/// copied into a `String`: the pieces between the separators, in order.
#[verifier::external_body]
pub(crate) fn split_all(s: &str, sep: char) -> (r: Vec<String>)
    ensures
        r.deep_view() == pieces(s@, sep),
{
    s.split(sep).map(|piece| piece.to_owned()).collect()
}

/// `str::splitn` with a limit of two and a single character as the
/// separator: what stands before the first separator, and what stands after
/// it if there is one.
#[verifier::external_body]
pub(crate) fn split_pair(s: &str, sep: char) -> (r: (String, Option<String>))
    ensures
        r.0@ == head_of(s@, sep),
        match r.1 {
            Some(rest) => tail_of(s@, sep) == Some(rest@),
            None => tail_of(s@, sep) is None,
        },
{
    let mut parts = s.splitn(2, sep).map(|part| part.to_owned());
    (parts.next().unwrap_or_default(), parts.next())
}

/// `str::trim`; the result is named by [`stripped`].
#[verifier::external_body]
pub(crate) fn trim_blank<'a>(s: &'a str) -> (r: &'a str)
    ensures
        r@ == stripped(s@),
{
    s.trim()
}

/// `str::parse` at type `u16`, its error dropped; the result is named by
/// [`parsed_u16`].
#[verifier::external_body]
pub(crate) fn parse_u16(s: &str) -> (r: Option<u16>)
    ensures
        r == parsed_u16(s@),
{
    s.parse::<u16>().ok()
}

/// The concatenation of two texts.
pub fn join(a: &str, b: &str) -> (r: String)
    ensures
        r@ == a@ + b@,
{
    let mut out = a.to_owned();
    out.append(b);
    out
}

/// The concatenation of three texts.
pub fn join3(a: &str, b: &str, c: &str) -> (r: String)
    ensures
        r@ == a@ + b@ + c@,
{
    let mut out = a.to_owned();
    out.append(b);
    out.append(c);
    out
}

/// What is left after skipping leading `c` does not start with `c`.
pub proof fn lemma_skip_leading_head(s: Seq<char>, c: char)
    ensures
        skip_leading(s, c).len() <= s.len(),
        skip_leading(s, c).len() > 0 ==> skip_leading(s, c)[0] != c,
    decreases s.len(),
{
    if s.len() > 0 && s[0] == c {
        lemma_skip_leading_head(s.subrange(1, s.len() as int), c);
    }
}

/// What is left after skipping trailing `c` does not end with `c`, and is a
/// prefix of the input.
pub proof fn lemma_skip_trailing_prefix(s: Seq<char>, c: char)
    ensures
        skip_trailing(s, c).len() <= s.len(),
        skip_trailing(s, c) == s.subrange(0, skip_trailing(s, c).len() as int),
        skip_trailing(s, c).len() > 0 ==> skip_trailing(s, c).last() != c,
    decreases s.len(),
{
    if s.len() > 0 && s.last() == c {
        lemma_skip_trailing_prefix(s.drop_last(), c);
        let t = skip_trailing(s.drop_last(), c);
        assert(t == s.subrange(0, t.len() as int));
    } else {
        assert(s == s.subrange(0, s.len() as int));
    }
}

/// Trimming a trimmed text changes nothing.
pub proof fn lemma_trimmed_idempotent(s: Seq<char>, c: char)
    ensures
        trimmed(trimmed(s, c), c) == trimmed(s, c),
{
    let a = skip_leading(s, c);
    let t = skip_trailing(a, c);
    lemma_skip_leading_head(s, c);
    lemma_skip_trailing_prefix(a, c);
    if t.len() > 0 {
        assert(t[0] == a[0]);
    }
    assert(skip_leading(t, c) == t);
    assert(skip_trailing(t, c) == t);
}

/// One more `c` in front does not change the trimmed text.
pub proof fn lemma_trimmed_front(s: Seq<char>, c: char)
    ensures
        trimmed(seq![c] + s, c) == trimmed(s, c),
{
    let t = seq![c] + s;
    assert(t.subrange(1, t.len() as int) == s);
}

proof fn lemma_skip_leading_push(s: Seq<char>, c: char)
    ensures
        skip_leading(s.push(c), c) == if skip_leading(s, c).len() == 0 {
            Seq::<char>::empty()
        } else {
            skip_leading(s, c).push(c)
        },
    decreases s.len(),
{
    let t = s.push(c);
    assert(t.len() > 0);
    if s.len() == 0 {
        assert(t[0] == c);
        let rest = t.subrange(1, t.len() as int);
        assert(rest.len() == 0);
        assert(skip_leading(rest, c) == rest);
        assert(skip_leading(t, c) == skip_leading(rest, c));
    } else if s[0] == c {
        let rest = s.subrange(1, s.len() as int);
        lemma_skip_leading_push(rest, c);
        assert(t[0] == c);
        assert(t.subrange(1, t.len() as int) == rest.push(c));
        assert(skip_leading(t, c) == skip_leading(rest.push(c), c));
        assert(skip_leading(s, c) == skip_leading(rest, c));
    } else {
        assert(t[0] == s[0]);
        assert(skip_leading(t, c) == t);
        assert(skip_leading(s, c) == s);
    }
}

/// One more `c` at the end does not change the trimmed text.
pub proof fn lemma_trimmed_back(s: Seq<char>, c: char)
    ensures
        trimmed(s.push(c), c) == trimmed(s, c),
{
    lemma_skip_leading_push(s, c);
    let a = skip_leading(s, c);
    if a.len() > 0 {
        assert(a.push(c).drop_last() == a);
    }
}

/// Runs of `c` around a text, of any length, do not change the trimmed text.
pub proof fn lemma_trimmed_ignores_runs(s: Seq<char>, c: char, lead: nat, trail: nat)
    ensures
        trimmed(run_of(c, lead) + s + run_of(c, trail), c) == trimmed(s, c),
    decreases lead + trail,
{
    let whole = run_of(c, lead) + s + run_of(c, trail);
    if trail > 0 {
        let shorter = run_of(c, lead) + s + run_of(c, (trail - 1) as nat);
        assert(whole == shorter.push(c));
        lemma_trimmed_back(shorter, c);
        lemma_trimmed_ignores_runs(s, c, lead, (trail - 1) as nat);
    } else if lead > 0 {
        let shorter = run_of(c, (lead - 1) as nat) + s + run_of(c, 0);
        assert(whole == seq![c] + shorter);
        lemma_trimmed_front(shorter, c);
        lemma_trimmed_ignores_runs(s, c, (lead - 1) as nat, 0);
    } else {
        assert(whole == s);
    }
}

} // verus!
