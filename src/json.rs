//! JSON values, as value input gives them, and the reading of a scalar's
//! schema document, such as `{"type":"decimal","exp":3,"default":203.293}`,
//! into a declaration.
//!
//! Strings carry no escapes. A schema document is one object whose member
//! values are text, numbers, `true`, `false` or `null`; `type` must be text,
//! and `exp` and `default` count where they are numbers and are passed over
//! otherwise. Where a key repeats, the last member counts.
use vstd::prelude::*;
use crate::compile::{NP_Declaration, NP_Number, NumberView, DeclView, chars_equal, all_digits, opt_view};
use crate::error::NP_Error;
use crate::lex::{
    skip_blanks, at, read_number, read_quoted, read_name, at_char, blank_end, name_at, quoted_at,
    number_at,
};
use crate::text::chars_of;

verus! {

/// A JSON value.
#[derive(Debug)]
pub enum NP_JSON {
    Null,
    True,
    False,
    Number(NP_Number),
    String(Vec<char>),
    Dictionary(Vec<(Vec<char>, NP_JSON)>),
    Array(Vec<NP_JSON>),
}

/// A JSON value, in spec form.
pub enum JsonView {
    Null,
    True,
    False,
    Number(NumberView),
    String(Seq<char>),
    Dictionary(Seq<(Seq<char>, JsonView)>),
    Array(Seq<JsonView>),
}

/// The spec form of a JSON value.
pub open spec fn json_view(j: NP_JSON) -> JsonView
    decreases j,
{
    match j {
        NP_JSON::Null => JsonView::Null,
        NP_JSON::True => JsonView::True,
        NP_JSON::False => JsonView::False,
        NP_JSON::Number(n) => JsonView::Number(n@),
        NP_JSON::String(t) => JsonView::String(t@),
        NP_JSON::Dictionary(m) => JsonView::Dictionary(
            Seq::new(
                m@.len(),
                |i: int|
                    if 0 <= i < m@.len() {
                        (m@[i].0@, json_view(m@[i].1))
                    } else {
                        (Seq::empty(), JsonView::Null)
                    },
            ),
        ),
        NP_JSON::Array(a) => JsonView::Array(
            Seq::new(
                a@.len(),
                |i: int|
                    if 0 <= i < a@.len() {
                        json_view(a@[i])
                    } else {
                        JsonView::Null
                    },
            ),
        ),
    }
}


/// The spec form of a value's members.
pub open spec fn members_view(m: Seq<(Vec<char>, NP_JSON)>) -> Seq<(Seq<char>, JsonView)> {
    Seq::new(
        m.len(),
        |i: int|
            if 0 <= i < m.len() {
                (m[i].0@, json_view(m[i].1))
            } else {
                (Seq::empty(), JsonView::Null)
            },
    )
}

/// An object's spec form holds its members' spec forms.
pub proof fn lemma_view_dictionary(m: Vec<(Vec<char>, NP_JSON)>)
    ensures
        json_view(NP_JSON::Dictionary(m)) == JsonView::Dictionary(members_view(m@)),
{
    match json_view(NP_JSON::Dictionary(m)) {
        JsonView::Dictionary(d) => {
            assert(d =~= members_view(m@));
        },
        _ => {},
    }
}

/// An array's spec form holds its items' spec forms.
pub proof fn lemma_view_array(a: Vec<NP_JSON>)
    ensures
        json_view(NP_JSON::Array(a)) == JsonView::Array(items_view(a@)),
{
    match json_view(NP_JSON::Array(a)) {
        JsonView::Array(d) => {
            assert(d =~= items_view(a@));
        },
        _ => {},
    }
}

/// The spec form of a value's items.
pub open spec fn items_view(a: Seq<NP_JSON>) -> Seq<JsonView> {
    Seq::new(
        a.len(),
        |i: int|
            if 0 <= i < a.len() {
                json_view(a[i])
            } else {
                JsonView::Null
            },
    )
}

/// The value of the last member named `key`.
pub open spec fn view_member(m: Seq<(Seq<char>, JsonView)>, key: Seq<char>) -> Option<JsonView>
    decreases m.len(),
{
    if m.len() == 0 {
        None
    } else if m.last().0 == key {
        Some(m.last().1)
    } else {
        view_member(m.drop_last(), key)
    }
}

/// The JSON value that starts at `i` and the position after it.
pub open spec fn json_value_at(s: Seq<char>, i: int) -> Option<(JsonView, int)>
    decreases s.len() - i, 0int,
{
    if !(0 <= i <= s.len()) {
        None
    } else if at_char(s, i, '"') {
        match quoted_at(s, i) {
            Some((t, j)) => Some((JsonView::String(t), j)),
            None => None,
        }
    } else if at_char(s, i, '-') || (i < s.len() && '0' <= s[i] && s[i] <= '9') {
        match number_at(s, i) {
            Some((n, j)) => Some((JsonView::Number(n), j)),
            None => None,
        }
    } else if at_char(s, i, '{') {
        let j = blank_end(s, i + 1);
        if at_char(s, j, '}') {
            Some((JsonView::Dictionary(seq![]), j + 1))
        } else if i < j <= s.len() {
            json_members_at(s, j, seq![])
        } else {
            None
        }
    } else if at_char(s, i, '[') {
        let j = blank_end(s, i + 1);
        if at_char(s, j, ']') {
            Some((JsonView::Array(seq![]), j + 1))
        } else if i < j <= s.len() {
            json_items_at(s, j, seq![])
        } else {
            None
        }
    } else {
        match name_at(s, i) {
            Some((w, j)) => if w == "true"@ {
                Some((JsonView::True, j))
            } else if w == "false"@ {
                Some((JsonView::False, j))
            } else if w == "null"@ {
                Some((JsonView::Null, j))
            } else {
                None
            },
            None => None,
        }
    }
}

/// The members of an object from `i` on, after the members `acc`, up to
/// and past the closing brace.
pub open spec fn json_members_at(s: Seq<char>, i: int, acc: Seq<(Seq<char>, JsonView)>) -> Option<
    (JsonView, int),
>
    decreases s.len() - i, 1int,
{
    if !(0 <= i <= s.len()) {
        None
    } else {
        match quoted_at(s, i) {
            None => None,
            Some((key, after_key)) => {
                let j = blank_end(s, after_key);
                if !at_char(s, j, ':') {
                    None
                } else {
                    let k = blank_end(s, j + 1);
                    if !(i < k <= s.len()) {
                        None
                    } else {
                        match json_value_at(s, k) {
                            None => None,
                            Some((v, after_value)) => {
                                let acc2 = acc.push((key, v));
                                let m = blank_end(s, after_value);
                                if at_char(s, m, ',') {
                                    let next = blank_end(s, m + 1);
                                    if i < next <= s.len() {
                                        json_members_at(s, next, acc2)
                                    } else {
                                        None
                                    }
                                } else if at_char(s, m, '}') {
                                    Some((JsonView::Dictionary(acc2), m + 1))
                                } else {
                                    None
                                }
                            },
                        }
                    }
                }
            },
        }
    }
}

/// The items of an array from `i` on, after the items `acc`, up to and past
/// the closing bracket.
pub open spec fn json_items_at(s: Seq<char>, i: int, acc: Seq<JsonView>) -> Option<(JsonView, int)>
    decreases s.len() - i, 1int,
{
    if !(0 <= i <= s.len()) {
        None
    } else {
        match json_value_at(s, i) {
            None => None,
            Some((v, after_value)) => {
                let acc2 = acc.push(v);
                let m = blank_end(s, after_value);
                if at_char(s, m, ',') {
                    let next = blank_end(s, m + 1);
                    if i < next <= s.len() {
                        json_items_at(s, next, acc2)
                    } else {
                        None
                    }
                } else if at_char(s, m, ']') {
                    Some((JsonView::Array(acc2), m + 1))
                } else {
                    None
                }
            },
        }
    }
}

/// The JSON value a whole text holds, blanks around it allowed.
pub open spec fn json_value_text(s: Seq<char>) -> Option<JsonView> {
    match json_value_at(s, blank_end(s, 0)) {
        Some((v, j)) => if blank_end(s, j) == s.len() {
            Some(v)
        } else {
            None
        },
        None => None,
    }
}

/// The value read at `i` and the position after it.
pub fn read_json_value(s: &Vec<char>, i: usize) -> (r: Result<(NP_JSON, usize), NP_Error>)
    requires
        i <= s@.len(),
    ensures
        r matches Ok((v, j)) ==> i < j <= s@.len(),
        match (r, json_value_at(s@, i as int)) {
            (Ok((v, j)), Some((w, k))) => json_view(v) == w && j == k,
            (Err(e), None) => e == NP_Error::BadJson,
            _ => false,
        },
    decreases s@.len() - i,
{
    if at(s, i, '"') {
        match read_quoted(s, i) {
            Some((t, j)) => Ok((NP_JSON::String(t), j)),
            None => Err(NP_Error::BadJson),
        }
    } else if at(s, i, '-') || (i < s.len() && '0' <= s[i] && s[i] <= '9') {
        match read_number(s, i) {
            Some((n, j)) => Ok((NP_JSON::Number(n), j)),
            None => Err(NP_Error::BadJson),
        }
    } else if at(s, i, '{') {
        let mut members: Vec<(Vec<char>, NP_JSON)> = Vec::new();
        let mut j = skip_blanks(s, i + 1);
        if at(s, j, '}') {
            proof {
                lemma_view_dictionary(members);
                assert(members_view(members@) =~= seq![]);
            }
            return Ok((NP_JSON::Dictionary(members), j + 1));
        }
        assert(members_view(members@) =~= seq![]);
        loop
            invariant
                i < j <= s@.len(),
                j == blank_end(s@, j as int),
                json_value_at(s@, i as int) == json_members_at(s@, j as int, members_view(members@)),
            decreases s@.len() - j,
        {
            let (key, after_key) = match read_quoted(s, j) {
                Some(x) => x,
                None => {
                    return Err(NP_Error::BadJson);
                },
            };
            let k = skip_blanks(s, after_key);
            if !at(s, k, ':') {
                return Err(NP_Error::BadJson);
            }
            let k = skip_blanks(s, k + 1);
            let (value, after_value) = match read_json_value(s, k) {
                Ok(x) => x,
                Err(e) => {
                    return Err(e);
                },
            };
            let ghost before = members@;
            let ghost entry = (key@, json_view(value));
            members.push((key, value));
            assert(members_view(members@) =~= members_view(before).push(entry));
            let m = skip_blanks(s, after_value);
            if at(s, m, ',') {
                j = skip_blanks(s, m + 1);
            } else if at(s, m, '}') {
                proof {
                    lemma_view_dictionary(members);
                }
                return Ok((NP_JSON::Dictionary(members), m + 1));
            } else {
                return Err(NP_Error::BadJson);
            }
        }
    } else if at(s, i, '[') {
        let mut items: Vec<NP_JSON> = Vec::new();
        let mut j = skip_blanks(s, i + 1);
        if at(s, j, ']') {
            proof {
                lemma_view_array(items);
                assert(items_view(items@) =~= seq![]);
            }
            return Ok((NP_JSON::Array(items), j + 1));
        }
        assert(items_view(items@) =~= seq![]);
        loop
            invariant
                i < j <= s@.len(),
                j == blank_end(s@, j as int),
                json_value_at(s@, i as int) == json_items_at(s@, j as int, items_view(items@)),
            decreases s@.len() - j,
        {
            let (value, after_value) = match read_json_value(s, j) {
                Ok(x) => x,
                Err(e) => {
                    return Err(e);
                },
            };
            let ghost before = items@;
            let ghost entry = json_view(value);
            items.push(value);
            assert(items_view(items@) =~= items_view(before).push(entry));
            let m = skip_blanks(s, after_value);
            if at(s, m, ',') {
                j = skip_blanks(s, m + 1);
            } else if at(s, m, ']') {
                proof {
                    lemma_view_array(items);
                }
                return Ok((NP_JSON::Array(items), m + 1));
            } else {
                return Err(NP_Error::BadJson);
            }
        }
    } else {
        match read_name(s, i) {
            Some((w, j)) => if chars_equal(&w, "true") {
                Ok((NP_JSON::True, j))
            } else if chars_equal(&w, "false") {
                Ok((NP_JSON::False, j))
            } else if chars_equal(&w, "null") {
                Ok((NP_JSON::Null, j))
            } else {
                Err(NP_Error::BadJson)
            },
            None => Err(NP_Error::BadJson),
        }
    }
}

/// Reads a whole text as one JSON value, blanks around it allowed.
pub fn parse_json(text: &str) -> (r: Result<NP_JSON, NP_Error>)
    ensures
        match (r, json_value_text(text@)) {
            (Ok(v), Some(w)) => json_view(v) == w,
            (Err(e), None) => e == NP_Error::BadJson,
            _ => false,
        },
{
    let s = chars_of(text);
    let i = skip_blanks(&s, 0);
    match read_json_value(&s, i) {
        Ok((v, j)) => {
            let k = skip_blanks(&s, j);
            if k == s.len() {
                Ok(v)
            } else {
                Err(NP_Error::BadJson)
            }
        },
        Err(e) => Err(e),
    }
}

/// The value of the last member named `key`.
pub fn get_member<'a>(m: &'a Vec<(Vec<char>, NP_JSON)>, key: &str) -> (r: Option<&'a NP_JSON>)
    ensures
        r matches Some(v) ==> view_member(members_view(m@), key@) == Some(json_view(*v)),
        r is None ==> view_member(members_view(m@), key@) is None,
{
    let ghost mv = members_view(m@);
    let mut i = m.len();
    assert(mv.subrange(0, i as int) =~= mv);
    while i > 0
        invariant
            i <= m@.len(),
            mv == members_view(m@),
            view_member(mv, key@) == view_member(mv.subrange(0, i as int), key@),
        decreases i,
    {
        let ghost pre = mv.subrange(0, i as int);
        assert(pre.drop_last() =~= mv.subrange(0, i - 1));
        assert(pre.last() == (m@[i - 1].0@, json_view(m@[i - 1].1)));
        if chars_equal(&m[i - 1].0, key) {
            return Some(&m[i - 1].1);
        }
        i = i - 1;
    }
    None
}

/// A member value of a schema document, as far as a schema cares.
pub enum ScalarView {
    Text(Seq<char>),
    Number(NumberView),
    Other,
}

/// The member value at `i` of a schema document and the position after it.
pub open spec fn doc_value(s: Seq<char>, i: int) -> Result<(ScalarView, int), NP_Error> {
    if at_char(s, i, '"') {
        match quoted_at(s, i) {
            Some((t, j)) => Ok((ScalarView::Text(t), j)),
            None => Err(NP_Error::BadJson),
        }
    } else if at_char(s, i, '-') || (0 <= i < s.len() && '0' <= s[i] && s[i] <= '9') {
        match number_at(s, i) {
            Some((n, j)) => Ok((ScalarView::Number(n), j)),
            None => Err(NP_Error::BadJson),
        }
    } else {
        match name_at(s, i) {
            Some((w, j)) => if w == "true"@ || w == "false"@ || w == "null"@ {
                Ok((ScalarView::Other, j))
            } else {
                Err(NP_Error::BadJson)
            },
            None => Err(NP_Error::BadJson),
        }
    }
}

/// What a schema keeps of a member: `type` where it is text, `exp` and
/// `default` where they are numbers.
pub open spec fn doc_fields(
    key: Seq<char>,
    v: ScalarView,
    kind: Option<Seq<char>>,
    exp: Option<NumberView>,
    default: Option<NumberView>,
) -> (Option<Seq<char>>, Option<NumberView>, Option<NumberView>) {
    if key == "type"@ {
        (
            match v {
                ScalarView::Text(t) => Some(t),
                _ => None,
            },
            exp,
            default,
        )
    } else if key == "exp"@ {
        (
            kind,
            match v {
                ScalarView::Number(n) => Some(n),
                _ => None,
            },
            default,
        )
    } else if key == "default"@ {
        (
            kind,
            exp,
            match v {
                ScalarView::Number(n) => Some(n),
                _ => None,
            },
        )
    } else {
        (kind, exp, default)
    }
}

/// The members from `i` up to the closing brace, with the fields seen so
/// far, and the position after the brace.
pub open spec fn doc_members(
    s: Seq<char>,
    i: int,
    kind: Option<Seq<char>>,
    exp: Option<NumberView>,
    default: Option<NumberView>,
) -> Result<(Option<Seq<char>>, Option<NumberView>, Option<NumberView>, int), NP_Error>
    decreases s.len() - i,
{
    match quoted_at(s, i) {
        None => Err(NP_Error::BadJson),
        Some((key, after_key)) => {
            let j = blank_end(s, after_key);
            if !at_char(s, j, ':') {
                Err(NP_Error::BadJson)
            } else {
                match doc_value(s, blank_end(s, j + 1)) {
                    Err(e) => Err(e),
                    Ok((v, after_value)) => {
                        let f = doc_fields(key, v, kind, exp, default);
                        let k = blank_end(s, after_value);
                        if at_char(s, k, ',') {
                            let next = blank_end(s, k + 1);
                            if 0 <= i < next <= s.len() {
                                doc_members(s, next, f.0, f.1, f.2)
                            } else {
                                Err(NP_Error::BadJson)
                            }
                        } else if at_char(s, k, '}') {
                            Ok((f.0, f.1, f.2, k + 1))
                        } else {
                            Err(NP_Error::BadJson)
                        }
                    },
                }
            }
        },
    }
}

/// The declaration a schema document holds.
pub open spec fn doc_declaration(s: Seq<char>) -> Result<DeclView, NP_Error> {
    let i = blank_end(s, 0);
    if !at_char(s, i, '{') {
        Err(NP_Error::BadJson)
    } else {
        let i = blank_end(s, i + 1);
        let fields: Result<(Option<Seq<char>>, Option<NumberView>, Option<NumberView>, int), NP_Error> =
            if at_char(s, i, '}') {
            Ok((None, None, None, i + 1))
        } else {
            doc_members(s, i, None, None, None)
        };
        match fields {
            Err(e) => Err(e),
            Ok((kind, exp, default, j)) => if blank_end(s, j) != s.len() {
                Err(NP_Error::BadJson)
            } else {
                match kind {
                    None => Err(NP_Error::MissingType),
                    Some(k) => Ok(DeclView { kind: k, exp, default }),
                }
            },
        }
    }
}

/// A member value as a schema keeps it.
enum DocValue {
    Text(Vec<char>),
    Number(NP_Number),
    Other,
}

impl DocValue {
    spec fn view(self) -> ScalarView {
        match self {
            DocValue::Text(t) => ScalarView::Text(t@),
            DocValue::Number(n) => ScalarView::Number(n@),
            DocValue::Other => ScalarView::Other,
        }
    }
}

/// The member value at `i` and the position after it.
fn read_doc_value(s: &Vec<char>, i: usize) -> (r: Result<(DocValue, usize), NP_Error>)
    requires
        i <= s@.len(),
    ensures
        r matches Ok((v, j)) ==> i < j <= s@.len() && (v matches DocValue::Number(n) ==> n.wf()),
        match (r, doc_value(s@, i as int)) {
            (Ok((v, j)), Ok((w, k))) => v.view() == w && j == k,
            (Err(e), Err(f)) => e == f,
            _ => false,
        },
{
    if at(s, i, '"') {
        match read_quoted(s, i) {
            Some((t, j)) => Ok((DocValue::Text(t), j)),
            None => Err(NP_Error::BadJson),
        }
    } else if at(s, i, '-') || (i < s.len() && '0' <= s[i] && s[i] <= '9') {
        match read_number(s, i) {
            Some((n, j)) => Ok((DocValue::Number(n), j)),
            None => Err(NP_Error::BadJson),
        }
    } else {
        match read_name(s, i) {
            Some((w, j)) => if chars_equal(&w, "true") || chars_equal(&w, "false") || chars_equal(
                &w,
                "null",
            ) {
                Ok((DocValue::Other, j))
            } else {
                Err(NP_Error::BadJson)
            },
            None => Err(NP_Error::BadJson),
        }
    }
}

/// Reads a schema document into a declaration: `MissingType` where it has
/// no string `type`, `BadJson` where it is not an object of members with
/// text, number, `true`, `false` or `null` values.
pub fn parse_json_declaration(text: &str) -> (r: Result<NP_Declaration, NP_Error>)
    ensures
        r matches Ok(d) ==> d.wf(),
        match (r, doc_declaration(text@)) {
            (Ok(d), Ok(v)) => d@ == v,
            (Err(e), Err(f)) => e == f,
            _ => false,
        },
{
    let s = chars_of(text);
    let mut i = skip_blanks(&s, 0);
    if !at(&s, i, '{') {
        return Err(NP_Error::BadJson);
    }
    i = skip_blanks(&s, i + 1);
    let ghost open_brace: int = blank_end(s@, 0);
    let ghost start: int = i as int;
    let mut kind: Option<Vec<char>> = None;
    let mut exp: Option<NP_Number> = None;
    let mut default: Option<NP_Number> = None;
    if at(&s, i, '}') {
        i = i + 1;
    } else {
        loop
            invariant_except_break
                i == blank_end(s@, i as int),
                doc_members(s@, start, None, None, None) == doc_members(
                    s@,
                    i as int,
                    opt_chars(kind),
                    opt_view(exp),
                    opt_view(default),
                ),
            invariant
                0 <= start <= i <= s@.len(),
                s@ == text@,
                exp matches Some(e) ==> e.wf(),
                default matches Some(d) ==> d.wf(),
                at_char(s@, open_brace, '{'),
                open_brace == blank_end(s@, 0),
                start == blank_end(s@, open_brace + 1),
                !at_char(s@, start, '}'),
            ensures
                s@ == text@,
                i <= s@.len(),
                exp matches Some(e) ==> e.wf(),
                default matches Some(d) ==> d.wf(),
                at_char(s@, open_brace, '{'),
                open_brace == blank_end(s@, 0),
                start == blank_end(s@, open_brace + 1),
                !at_char(s@, start, '}'),
                doc_members(s@, start, None, None, None) == Ok::<
                    (Option<Seq<char>>, Option<NumberView>, Option<NumberView>, int),
                    NP_Error,
                >((opt_chars(kind), opt_view(exp), opt_view(default), i as int)),
            decreases s@.len() - i,
        {
            let (key, after_key) = match read_quoted(&s, i) {
                Some(x) => x,
                None => {
                    return Err(NP_Error::BadJson);
                },
            };
            let j = skip_blanks(&s, after_key);
            if !at(&s, j, ':') {
                return Err(NP_Error::BadJson);
            }
            let j = skip_blanks(&s, j + 1);
            let (value, after_value) = match read_doc_value(&s, j) {
                Ok(x) => x,
                Err(e) => {
                    return Err(e);
                },
            };
            if chars_equal(&key, "type") {
                kind = match value {
                    DocValue::Text(t) => Some(t),
                    _ => None,
                };
            } else if chars_equal(&key, "exp") {
                exp = match value {
                    DocValue::Number(n) => Some(n),
                    _ => None,
                };
            } else if chars_equal(&key, "default") {
                default = match value {
                    DocValue::Number(n) => Some(n),
                    _ => None,
                };
            }
            let j = skip_blanks(&s, after_value);
            if at(&s, j, ',') {
                i = skip_blanks(&s, j + 1);
            } else if at(&s, j, '}') {
                i = j + 1;
                break;
            } else {
                return Err(NP_Error::BadJson);
            }
        }
    }
    let end = skip_blanks(&s, i);
    if end != s.len() {
        return Err(NP_Error::BadJson);
    }
    match kind {
        None => Err(NP_Error::MissingType),
        Some(k) => Ok(NP_Declaration { kind_name: k, exp, default }),
    }
}

/// The spec form of optional text.
pub open spec fn opt_chars(t: Option<Vec<char>>) -> Option<Seq<char>> {
    match t {
        Some(x) => Some(x@),
        None => None,
    }
}

/// Whether every entry is a digit.
pub fn digits_ok(d: &Vec<u8>) -> (r: bool)
    ensures
        r == all_digits(d@),
{
    let mut i: usize = 0;
    while i < d.len()
        invariant
            i <= d@.len(),
            forall|k: int| 0 <= k < i ==> d@[k] < 10,
        decreases d@.len() - i,
    {
        if d[i] >= 10 {
            return false;
        }
        i = i + 1;
    }
    true
}

/// A copy of a number whose entries are all digits.
pub fn copy_number(n: &NP_Number) -> (r: Option<NP_Number>)
    ensures
        r matches Some(c) ==> c.wf() && c@ == n@,
        r is None <==> !n.wf(),
{
    if !digits_ok(&n.whole) || !digits_ok(&n.fraction) {
        return None;
    }
    Some(
    NP_Number {
        negative: n.negative,
        whole: n.whole.clone(),
        point: n.point,
        fraction: n.fraction.clone(),
    })
}

} // verus!

