//! Reads a scalar's IDL declaration, such as `dec({exp: 3, default: 5.12})`
//! or `uuid()`, into a declaration.
//!
//! The text is a type name, then parentheses that hold nothing or one
//! object of `key: value` pairs; values are numbers, quoted text or names.
//! `exp` and `default` count where they are numbers.
use vstd::prelude::*;
use crate::compile::{NP_Declaration, NP_Number, NumberView, DeclView, chars_equal, opt_view};
use crate::error::NP_Error;
use crate::lex::{
    skip_blanks, at, read_number, read_quoted, read_name, at_char, blank_end, name_at, quoted_at,
    number_at,
};
use crate::text::chars_of;

verus! {

/// The argument value at `i`: the number where it is one, and the position
/// after the value.
pub open spec fn idl_argument(s: Seq<char>, i: int) -> Result<(Option<NumberView>, int), NP_Error> {
    if at_char(s, i, '"') {
        match quoted_at(s, i) {
            Some((_, j)) => Ok((None, j)),
            None => Err(NP_Error::BadIdl),
        }
    } else if at_char(s, i, '-') || (0 <= i < s.len() && '0' <= s[i] && s[i] <= '9') {
        match number_at(s, i) {
            Some((n, j)) => Ok((Some(n), j)),
            None => Err(NP_Error::BadIdl),
        }
    } else {
        match name_at(s, i) {
            Some((_, j)) => Ok((None, j)),
            None => Err(NP_Error::BadIdl),
        }
    }
}

/// The `key: value` pairs from `i` up to the closing brace, with the `exp`
/// and `default` seen so far: the last `exp` and the last `default` given
/// as numbers (other values are passed over), and the position after the
/// brace.
pub open spec fn idl_members(
    s: Seq<char>,
    i: int,
    exp: Option<NumberView>,
    default: Option<NumberView>,
) -> Result<(Option<NumberView>, Option<NumberView>, int), NP_Error>
    decreases s.len() - i,
{
    if !(0 <= i <= s.len()) {
        Err(NP_Error::BadIdl)
    } else if at_char(s, i, '}') {
        Ok((exp, default, i + 1))
    } else {
        match name_at(s, i) {
            None => Err(NP_Error::BadIdl),
            Some((key, after_key)) => {
                let j = blank_end(s, after_key);
                if !at_char(s, j, ':') {
                    Err(NP_Error::BadIdl)
                } else {
                    match idl_argument(s, blank_end(s, j + 1)) {
                        Err(e) => Err(e),
                        Ok((v, after_value)) => {
                            let exp2 = if key == "exp"@ && v is Some {
                                v
                            } else {
                                exp
                            };
                            let default2 = if key == "default"@ && v is Some {
                                v
                            } else {
                                default
                            };
                            let k = blank_end(s, after_value);
                            if at_char(s, k, ',') {
                                let next = blank_end(s, k + 1);
                                if i < next <= s.len() {
                                    idl_members(s, next, exp2, default2)
                                } else {
                                    Err(NP_Error::BadIdl)
                                }
                            } else if at_char(s, k, '}') {
                                Ok((exp2, default2, k + 1))
                            } else {
                                Err(NP_Error::BadIdl)
                            }
                        },
                    }
                }
            },
        }
    }
}

/// The declaration an IDL text holds.
pub open spec fn idl_declaration(s: Seq<char>) -> Result<DeclView, NP_Error> {
    match name_at(s, blank_end(s, 0)) {
        None => Err(NP_Error::BadIdl),
        Some((name, after_name)) => {
            let i = blank_end(s, after_name);
            if !at_char(s, i, '(') {
                Err(NP_Error::BadIdl)
            } else {
                let i = blank_end(s, i + 1);
                let args: Result<(Option<NumberView>, Option<NumberView>, int), NP_Error> =
                    if at_char(s, i, '{') {
                    match idl_members(s, blank_end(s, i + 1), None, None) {
                        Ok((e, d, j)) => Ok((e, d, blank_end(s, j))),
                        Err(x) => Err(x),
                    }
                } else {
                    Ok((None, None, i))
                };
                match args {
                    Err(x) => Err(x),
                    Ok((e, d, j)) => if !at_char(s, j, ')') {
                        Err(NP_Error::BadIdl)
                    } else if blank_end(s, j + 1) != s.len() {
                        Err(NP_Error::BadIdl)
                    } else {
                        Ok(DeclView { kind: name, exp: e, default: d })
                    },
                }
            }
        },
    }
}

/// Reads an argument value at `i`: the number where it is one, and the
/// position after the value.
fn read_argument(s: &Vec<char>, i: usize) -> (r: Result<(Option<NP_Number>, usize), NP_Error>)
    requires
        i <= s@.len(),
    ensures
        r matches Err(e) ==> e == NP_Error::BadIdl,
        r matches Ok((v, j)) ==> i < j <= s@.len() && (v matches Some(n) ==> n.wf()),
        match (r, idl_argument(s@, i as int)) {
            (Ok((v, j)), Ok((w, k))) => opt_view(v) == w && j == k,
            (Err(e), Err(f)) => e == f,
            _ => false,
        },
{
    if at(s, i, '"') {
        match read_quoted(s, i) {
            Some((_, j)) => Ok((None, j)),
            None => Err(NP_Error::BadIdl),
        }
    } else if at(s, i, '-') || (i < s.len() && '0' <= s[i] && s[i] <= '9') {
        match read_number(s, i) {
            Some((n, j)) => Ok((Some(n), j)),
            None => Err(NP_Error::BadIdl),
        }
    } else {
        match read_name(s, i) {
            Some((_, j)) => Ok((None, j)),
            None => Err(NP_Error::BadIdl),
        }
    }
}

/// Reads an IDL declaration: `BadIdl` where the text is not one.
pub fn parse_idl_declaration(text: &str) -> (r: Result<NP_Declaration, NP_Error>)
    ensures
        r matches Ok(d) ==> d.wf(),
        r matches Err(e) ==> e == NP_Error::BadIdl,
        match (r, idl_declaration(text@)) {
            (Ok(d), Ok(v)) => d@ == v,
            (Err(e), Err(f)) => e == f,
            _ => false,
        },
{
    let s = chars_of(text);
    let i = skip_blanks(&s, 0);
    let (name, after_name) = match read_name(&s, i) {
        Some(x) => x,
        None => {
            return Err(NP_Error::BadIdl);
        },
    };
    let mut i = skip_blanks(&s, after_name);
    if !at(&s, i, '(') {
        return Err(NP_Error::BadIdl);
    }
    i = skip_blanks(&s, i + 1);
    let mut exp: Option<NP_Number> = None;
    let mut default: Option<NP_Number> = None;
    let ghost brace: int = i as int;
    if at(&s, i, '{') {
        i = skip_blanks(&s, i + 1);
        let ghost start: int = i as int;
        loop
            invariant_except_break
                i == blank_end(s@, i as int),
                idl_members(s@, start, None, None) == idl_members(
                    s@,
                    i as int,
                    opt_view(exp),
                    opt_view(default),
                ),
            invariant
                i <= s@.len(),
                s@ == text@,
                name_at(s@, blank_end(s@, 0)) == Some((name@, after_name as int)),
                at_char(s@, blank_end(s@, after_name as int), '('),
                brace == blank_end(s@, blank_end(s@, after_name as int) + 1),
                at_char(s@, brace, '{'),

                exp matches Some(e) ==> e.wf(),
                default matches Some(d) ==> d.wf(),
                start == blank_end(s@, brace + 1),
            ensures
                i <= s@.len(),
                s@ == text@,
                name_at(s@, blank_end(s@, 0)) == Some((name@, after_name as int)),
                at_char(s@, blank_end(s@, after_name as int), '('),
                brace == blank_end(s@, blank_end(s@, after_name as int) + 1),
                at_char(s@, brace, '{'),

                exp matches Some(e) ==> e.wf(),
                default matches Some(d) ==> d.wf(),
                start == blank_end(s@, brace + 1),
                idl_members(s@, start, None, None) == Ok::<
                    (Option<NumberView>, Option<NumberView>, int),
                    NP_Error,
                >((opt_view(exp), opt_view(default), i as int)),
            decreases s@.len() - i,
        {
            if at(&s, i, '}') {
                i = i + 1;
                break;
            }
            let (key, after_key) = match read_name(&s, i) {
                Some(x) => x,
                None => {
                    return Err(NP_Error::BadIdl);
                },
            };
            let j = skip_blanks(&s, after_key);
            if !at(&s, j, ':') {
                return Err(NP_Error::BadIdl);
            }
            let j = skip_blanks(&s, j + 1);
            let (value, after_value) = match read_argument(&s, j) {
                Ok(x) => x,
                Err(e) => {
                    return Err(e);
                },
            };
            let ghost gv = opt_view(value);
            let ghost old_exp = opt_view(exp);
            let ghost old_default = opt_view(default);
            assert(gv is Some <==> value is Some);
            proof {
                reveal_strlit("exp");
                reveal_strlit("default");
                assert("exp"@.len() != "default"@.len());
            }
            if value.is_some() {
                if chars_equal(&key, "exp") {
                    exp = value;
                } else if chars_equal(&key, "default") {
                    default = value;
                }
            }
            assert(opt_view(exp) == if key@ == "exp"@ && gv is Some {
                gv
            } else {
                old_exp
            });
            assert(opt_view(default) == if key@ == "default"@ && gv is Some {
                gv
            } else {
                old_default
            });
            let j = skip_blanks(&s, after_value);
            if at(&s, j, ',') {
                i = skip_blanks(&s, j + 1);
            } else if at(&s, j, '}') {
                i = j + 1;
                break;
            } else {
                return Err(NP_Error::BadIdl);
            }
        }
        i = skip_blanks(&s, i);
    }
    if !at(&s, i, ')') {
        return Err(NP_Error::BadIdl);
    }
    i = skip_blanks(&s, i + 1);
    if i != s.len() {
        return Err(NP_Error::BadIdl);
    }
    Ok(NP_Declaration { kind_name: name, exp, default })
}

} // verus!
