//! Pieces shared by the JSON and IDL readers: blanks, numbers, quoted text
//! and names, each read from a position in a character sequence.
use vstd::prelude::*;
use crate::compile::{NP_Number, NumberView, all_digits};
use crate::text::{digit_value, digit_of};

verus! {

pub open spec fn is_blank(c: char) -> bool {
    c == ' ' || c == '\n' || c == '\r' || c == '\t'
}

/// A character that may stand in a name.
pub open spec fn is_name_char(c: char) -> bool {
    ('a' <= c && c <= 'z') || ('A' <= c && c <= 'Z') || ('0' <= c && c <= '9') || c == '_'
}

/// Position `i` holds `c`.
pub open spec fn at_char(s: Seq<char>, i: int, c: char) -> bool {
    0 <= i < s.len() && s[i] == c
}

/// The first position from `i` that holds no blank.
pub open spec fn blank_end(s: Seq<char>, i: int) -> int
    decreases s.len() - i,
{
    if 0 <= i < s.len() && is_blank(s[i]) {
        blank_end(s, i + 1)
    } else {
        i
    }
}

/// The first position from `i` that holds no name character.
pub open spec fn name_end(s: Seq<char>, i: int) -> int
    decreases s.len() - i,
{
    if 0 <= i < s.len() && is_name_char(s[i]) {
        name_end(s, i + 1)
    } else {
        i
    }
}

/// The first position from `i` that holds no decimal digit.
pub open spec fn digits_end(s: Seq<char>, i: int) -> int
    decreases s.len() - i,
{
    if 0 <= i < s.len() && digit_value(s[i], 10) is Some {
        digits_end(s, i + 1)
    } else {
        i
    }
}

/// The values of the digits from `a` up to `b`.
pub open spec fn digit_values(s: Seq<char>, a: int, b: int) -> Seq<u8> {
    Seq::new((b - a) as nat, |t: int| digit_value(s[a + t], 10)->0 as u8)
}

/// The name at `i` and the position after it.
pub open spec fn name_at(s: Seq<char>, i: int) -> Option<(Seq<char>, int)> {
    let e = name_end(s, i);
    if e == i {
        None
    } else {
        Some((s.subrange(i, e), e))
    }
}

/// The position of the closing quote from `k` on, where no backslash comes
/// first.
pub open spec fn quote_end(s: Seq<char>, k: int) -> Option<int>
    decreases s.len() - k,
{
    if !(0 <= k < s.len()) {
        None
    } else if s[k] == '"' {
        Some(k)
    } else if s[k] == '\\' {
        None
    } else {
        quote_end(s, k + 1)
    }
}

/// The quoted text at `i` and the position after its closing quote.
pub open spec fn quoted_at(s: Seq<char>, i: int) -> Option<(Seq<char>, int)> {
    if at_char(s, i, '"') {
        match quote_end(s, i + 1) {
            Some(e) => Some((s.subrange(i + 1, e), e + 1)),
            None => None,
        }
    } else {
        None
    }
}

/// The number at `i` and the position after it.
pub open spec fn number_at(s: Seq<char>, i: int) -> Option<(NumberView, int)> {
    let negative = at_char(s, i, '-');
    let k = if negative {
        i + 1
    } else {
        i
    };
    let e1 = digits_end(s, k);
    if e1 == k {
        None
    } else if at_char(s, e1, '.') {
        let e2 = digits_end(s, e1 + 1);
        Some(
            (
                NumberView {
                    negative,
                    whole: digit_values(s, k, e1),
                    point: true,
                    fraction: digit_values(s, e1 + 1, e2),
                },
                e2,
            ),
        )
    } else {
        Some(
            (
                NumberView {
                    negative,
                    whole: digit_values(s, k, e1),
                    point: false,
                    fraction: seq![],
                },
                e1,
            ),
        )
    }
}

pub proof fn lemma_blank_end(s: Seq<char>, i: int, j: int)
    requires
        0 <= i <= j <= s.len(),
        forall|k: int| i <= k < j ==> is_blank(s[k]),
        j < s.len() ==> !is_blank(s[j]),
    ensures
        blank_end(s, i) == j,
    decreases j - i,
{
    if i < j {
        lemma_blank_end(s, i + 1, j);
    }
}

pub proof fn lemma_name_end(s: Seq<char>, i: int, j: int)
    requires
        0 <= i <= j <= s.len(),
        forall|k: int| i <= k < j ==> is_name_char(s[k]),
        j < s.len() ==> !is_name_char(s[j]),
    ensures
        name_end(s, i) == j,
    decreases j - i,
{
    if i < j {
        lemma_name_end(s, i + 1, j);
    }
}

pub proof fn lemma_digits_end(s: Seq<char>, i: int, j: int)
    requires
        0 <= i <= j <= s.len(),
        forall|k: int| i <= k < j ==> digit_value(#[trigger] s[k], 10) is Some,
        j < s.len() ==> digit_value(s[j], 10) is None,
    ensures
        digits_end(s, i) == j,
    decreases j - i,
{
    if i < j {
        lemma_digits_end(s, i + 1, j);
    }
}

pub proof fn lemma_quote_end(s: Seq<char>, i: int, j: int)
    requires
        0 <= i <= j < s.len(),
        forall|k: int| i <= k < j ==> s[k] != '"' && s[k] != '\\',
        s[j] == '"',
    ensures
        quote_end(s, i) == Some(j),
    decreases j - i,
{
    if i < j {
        lemma_quote_end(s, i + 1, j);
    }
}

proof fn lemma_quote_end_none(s: Seq<char>, i: int, j: int)
    requires
        0 <= i <= j <= s.len(),
        forall|k: int| i <= k < j ==> s[k] != '"' && s[k] != '\\',
        j == s.len() || s[j] == '\\',
    ensures
        quote_end(s, i) is None,
    decreases j - i,
{
    if i < j {
        lemma_quote_end_none(s, i + 1, j);
    }
}

/// The first position from `i` that holds no blank.
pub fn skip_blanks(s: &Vec<char>, i: usize) -> (j: usize)
    requires
        i <= s@.len(),
    ensures
        i <= j <= s@.len(),
        forall|k: int| i <= k < j ==> is_blank(s@[k]),
        j < s@.len() ==> !is_blank(s@[j as int]),
        s@.len() <= usize::MAX,
        j == blank_end(s@, i as int),
{
    let n = s.len();
    let mut j = i;
    while j < s.len() && (s[j] == ' ' || s[j] == '\n' || s[j] == '\r' || s[j] == '\t')
        invariant
            i <= j <= s@.len(),
            forall|k: int| i <= k < j ==> is_blank(s@[k]),
        decreases s@.len() - j,
    {
        j = j + 1;
    }
    proof {
        lemma_blank_end(s@, i as int, j as int);
    }
    j
}

/// Whether position `i` holds `c`.
pub fn at(s: &Vec<char>, i: usize, c: char) -> (r: bool)
    ensures
        r == (i < s@.len() && s@[i as int] == c),
        r == at_char(s@, i as int, c),
        s@.len() <= usize::MAX,
{
    let n = s.len();
    i < n && s[i] == c
}

/// The decimal digits from `i` on, and the position after them.
fn read_digits(s: &Vec<char>, i: usize) -> (r: (Vec<u8>, usize))
    requires
        i <= s@.len(),
    ensures
        i <= r.1 <= s@.len(),
        r.0@.len() == r.1 - i,
        all_digits(r.0@),
        forall|k: int|
            0 <= k < r.0@.len() ==> digit_value(s@[i + k], 10) == Some(#[trigger] r.0@[k] as nat),
        r.1 < s@.len() ==> digit_value(s@[r.1 as int], 10) is None,
        r.1 == digits_end(s@, i as int),
        r.0@ == digit_values(s@, i as int, r.1 as int),
{
    let mut out: Vec<u8> = Vec::new();
    let mut j = i;
    while j < s.len() && digit_of(s[j], 10).is_some()
        invariant
            i <= j <= s@.len(),
            out@.len() == j - i,
            all_digits(out@),
            forall|k: int|
                0 <= k < out@.len() ==> digit_value(s@[i + k], 10) == Some(
                    #[trigger] out@[k] as nat,
                ),
        decreases s@.len() - j,
    {
        let d = digit_of(s[j], 10).unwrap();
        out.push(d as u8);
        j = j + 1;
    }
    proof {
        if j < s@.len() {
            assert(digit_value(s@[j as int], 10) is None);
        }
        assert forall|k: int| i <= k < j implies digit_value(#[trigger] s@[k], 10) is Some by {
            assert(digit_value(s@[i + (k - i)], 10) == Some(out@[k - i] as nat));
        }
        lemma_digits_end(s@, i as int, j as int);
        assert(out@ =~= digit_values(s@, i as int, j as int));
    }
    (out, j)
}

/// A number at `i`: an optional `-`, one or more digits, and optionally a
/// point followed by digits. Gives the number and the position after it.
pub fn read_number(s: &Vec<char>, i: usize) -> (r: Option<(NP_Number, usize)>)
    requires
        i <= s@.len(),
    ensures
        r matches Some((n, j)) ==> n.wf() && i < j <= s@.len(),
        match (r, number_at(s@, i as int)) {
            (Some((n, j)), Some((m, k))) => n@ == m && j == k,
            (None, None) => true,
            _ => false,
        },
{
    let mut j = i;
    let negative = at(s, j, '-');
    if negative {
        j = j + 1;
    }
    let (whole, after_whole) = read_digits(s, j);
    if whole.len() == 0 {
        return None;
    }
    j = after_whole;
    let point = at(s, j, '.');
    let mut fraction: Vec<u8> = Vec::new();
    if point {
        let (f, after) = read_digits(s, j + 1);
        fraction = f;
        j = after;
    }
    Some((NP_Number { negative, whole, point, fraction }, j))
}

/// Text between double quotes at `i` (no escapes), and the position after
/// the closing quote.
pub fn read_quoted(s: &Vec<char>, i: usize) -> (r: Option<(Vec<char>, usize)>)
    requires
        i <= s@.len(),
    ensures
        r matches Some((t, j)) ==> i + 2 <= j <= s@.len() && t@ == s@.subrange(i + 1, j - 1),
        match (r, quoted_at(s@, i as int)) {
            (Some((t, j)), Some((u, k))) => t@ == u && j == k,
            (None, None) => true,
            _ => false,
        },
{
    if !at(s, i, '"') {
        return None;
    }
    let mut out: Vec<char> = Vec::new();
    let mut j = i + 1;
    while j < s.len() && s[j] != '"'
        invariant
            i + 1 <= j <= s@.len(),
            at_char(s@, i as int, '"'),
            out@ == s@.subrange(i + 1, j as int),
            forall|k: int| i + 1 <= k < j ==> s@[k] != '"' && s@[k] != '\\',
        decreases s@.len() - j,
    {
        if s[j] == '\\' {
            proof {
                lemma_quote_end_none(s@, i + 1, j as int);
            }
            return None;
        }
        out.push(s[j]);
        j = j + 1;
        assert(out@ =~= s@.subrange(i + 1, j as int));
    }
    if j >= s.len() {
        proof {
            lemma_quote_end_none(s@, i + 1, j as int);
        }
        return None;
    }
    proof {
        lemma_quote_end(s@, i + 1, j as int);
    }
    Some((out, j + 1))
}

/// A name at `i`: one or more letters, digits or underscores, and the
/// position after it.
pub fn read_name(s: &Vec<char>, i: usize) -> (r: Option<(Vec<char>, usize)>)
    requires
        i <= s@.len(),
    ensures
        r matches Some((t, j)) ==> i < j <= s@.len() && t@ == s@.subrange(i as int, j as int)
            && forall|k: int| i <= k < j ==> is_name_char(#[trigger] s@[k]),
        match (r, name_at(s@, i as int)) {
            (Some((t, j)), Some((u, k))) => t@ == u && j == k,
            (None, None) => true,
            _ => false,
        },
{
    let mut out: Vec<char> = Vec::new();
    let mut j = i;
    while j < s.len() && (('a' <= s[j] && s[j] <= 'z') || ('A' <= s[j] && s[j] <= 'Z') || ('0'
        <= s[j] && s[j] <= '9') || s[j] == '_')
        invariant
            i <= j <= s@.len(),
            out@ == s@.subrange(i as int, j as int),
            forall|k: int| i <= k < j ==> is_name_char(#[trigger] s@[k]),
        decreases s@.len() - j,
    {
        out.push(s[j]);
        j = j + 1;
        assert(out@ =~= s@.subrange(i as int, j as int));
    }
    proof {
        lemma_name_end(s@, i as int, j as int);
    }
    if j == i {
        return None;
    }
    Some((out, j))
}

} // verus!
