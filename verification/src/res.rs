//! The response sections (`res` and `client_res`): header resolution with
//! its compatibility quirk, the status line, header and body lines, and
//! the trailing object-valued details.

use vstd::prelude::*;
use crate::text::{
    spaces, push_spaces, parse_dec_bounded, parse_unsigned_str, lines_of, split_lines,
    matches_at, starts_with, dec_str_of, push_dec_u64,
};
use crate::value::{JsonValue, lookup, has_key, get, string_or_value, push_string_or_value};
use crate::render::{ind_lines, ind_lines_skip_empty, push_ind_lines, push_ind_lines_skip_empty,
    render_value, push_render_value};
use crate::outside::reason_phrase_spec;

verus! {

/// The keys the response sections consume; other object-valued keys get
/// the generic detail rendering.
pub open spec fn is_res_extra(k: Seq<char>) -> bool {
    ||| k == "statusCode"@
    ||| k == "header"@
    ||| k == "headers"@
    ||| k == "trailer"@
}

fn is_res_extra_exec(k: &str) -> (r: bool)
    ensures
        r == is_res_extra(k@),
{
    crate::text::str_eq(k, "statusCode") || crate::text::str_eq(k, "header")
        || crate::text::str_eq(k, "headers") || crate::text::str_eq(k, "trailer")
}

/// The usable numeric status code of a `statusCode` value: the value of
/// an integral JSON number no larger than sixteen bits, or of a string
/// that parses as an unsigned sixteen-bit integer; anything else yields
/// none.
pub open spec fn numeric_status(v: Option<JsonValue>) -> Option<u16> {
    match v {
        Some(JsonValue::Num(t)) => match parse_dec_bounded(t@, u64::MAX as nat) {
            Some(n) => if n <= 65535 {
                Some(n as u16)
            } else {
                None
            },
            None => None,
        },
        Some(JsonValue::Str(s)) => match parse_unsigned_str(s@, u16::MAX as nat) {
            Some(n) => Some(n as u16),
            None => None,
        },
        _ => None,
    }
}

fn numeric_status_exec(v: Option<&JsonValue>) -> (r: Option<u16>)
    ensures
        r == numeric_status(match v {
            Some(w) => Some(*w),
            None => None,
        }),
{
    match v {
        Some(JsonValue::Num(t)) => match crate::text::parse_u64_digits(t.as_str(), u64::MAX) {
            Some(n) => if n <= 65535 {
                Some(n as u16)
            } else {
                None
            },
            None => None,
        },
        Some(JsonValue::Str(s)) => match crate::text::parse_u16_str(s.as_str()) {
            Some(n) => Some(n),
            None => None,
        },
        _ => None,
    }
}

/// The status line: present exactly when a usable numeric status code is
/// there, with the version token when one was parsed out of a raw header
/// string, and the catalogue's reason phrase for the code.
pub open spec fn status_line(code: Option<JsonValue>, ver: Option<Seq<char>>) -> Seq<char> {
    match numeric_status(code) {
        Some(c) => spaces(4) + "HTTP/"@ + (match ver {
            Some(v) => v,
            None => "1.1"@,
        }) + " "@ + dec_str_of(c as nat) + " "@ + reason_phrase_spec(c) + "\n"@,
        None => Seq::<char>::empty(),
    }
}

fn push_status_line(out: &mut String, code: Option<&JsonValue>, ver: Option<&str>)
    ensures
        final(out)@ == old(out)@ + status_line(
            match code {
                Some(w) => Some(*w),
                None => None,
            },
            match ver {
                Some(v) => Some(v@),
                None => None,
            },
        ),
{
    match numeric_status_exec(code) {
        Some(c) => {
            push_spaces(out, 4);
            out.append("HTTP/");
            match ver {
                Some(v) => {
                    out.append(v);
                },
                None => {
                    out.append("1.1");
                },
            }
            out.append(" ");
            push_dec_u64(out, c as u64);
            out.append(" ");
            let phrase = crate::outside::reason_phrase(c);
            out.append(phrase.as_str());
            out.append("\n");
            proof {
                assert(out@ =~= old(out)@ + status_line(
                    match code {
                        Some(w) => Some(*w),
                        None => None,
                    },
                    match ver {
                        Some(v) => Some(v@),
                        None => None,
                    },
                ));
            }
        },
        None => {},
    }
}

/// Header entries flattened one per line: `<indent><key>: <value>`.
pub open spec fn headers_obj_lines(entries: Seq<(String, JsonValue)>, n: int) -> Seq<char>
    decreases n,
{
    if n <= 0 || n > entries.len() {
        Seq::<char>::empty()
    } else {
        headers_obj_lines(entries, n - 1) + spaces(4) + entries[n - 1].0@ + ": "@
            + string_or_value(entries[n - 1].1) + "\n"@
    }
}

fn push_headers_obj(out: &mut String, entries: &Vec<(String, JsonValue)>)
    ensures
        final(out)@ == old(out)@ + headers_obj_lines(entries@, entries@.len() as int),
{
    let n = entries.len();
    let mut i: usize = 0;
    while i < n
        invariant
            n == entries@.len(),
            0 <= i <= n,
            out@ == old(out)@ + headers_obj_lines(entries@, i as int),
        decreases n - i,
    {
        push_spaces(out, 4);
        out.append(entries[i].0.as_str());
        out.append(": ");
        push_string_or_value(out, &entries[i].1);
        out.append("\n");
        proof {
            assert(out@ =~= old(out)@ + headers_obj_lines(entries@, i + 1));
        }
        i = i + 1;
    }
}

/// The object-valued details of a response: every key outside the
/// consumed set whose value is an object, rendered recursively at the
/// base indent under a `res.<key>: ` label.
pub open spec fn res_extras(entries: Seq<(String, JsonValue)>, n: int) -> Seq<char>
    decreases n,
{
    if n <= 0 || n > entries.len() {
        Seq::<char>::empty()
    } else {
        res_extras(entries, n - 1) + if !is_res_extra(entries[n - 1].0@) && entries[n - 1].1
            is Obj {
            spaces(4) + "res."@ + entries[n - 1].0@ + ": "@ + render_value(entries[n - 1].1, 4)
                + "\n"@
        } else {
            Seq::<char>::empty()
        }
    }
}

fn push_res_extras(out: &mut String, entries: &Vec<(String, JsonValue)>)
    ensures
        final(out)@ == old(out)@ + res_extras(entries@, entries@.len() as int),
{
    let n = entries.len();
    let mut i: usize = 0;
    while i < n
        invariant
            n == entries@.len(),
            0 <= i <= n,
            out@ == old(out)@ + res_extras(entries@, i as int),
        decreases n - i,
    {
        let is_obj = match &entries[i].1 {
            JsonValue::Obj(_) => true,
            _ => false,
        };
        if !is_res_extra_exec(entries[i].0.as_str()) && is_obj {
            push_spaces(out, 4);
            out.append("res.");
            out.append(entries[i].0.as_str());
            out.append(": ");
            push_render_value(out, &entries[i].1, 4);
            out.append("\n");
        }
        proof {
            assert(out@ =~= old(out)@ + res_extras(entries@, i + 1));
        }
        i = i + 1;
    }
}

/// The version token of a raw header string: the three characters at
/// offset five, when the string starts with `HTTP/` and is long enough.
pub open spec fn raw_header_version(s: Seq<char>) -> Option<Seq<char>> {
    if matches_at(s, 0, "HTTP/"@) && s.len() >= 8 {
        Some(s.subrange(5, 8))
    } else {
        None
    }
}

/// The whole response section. Headers are resolved from `header` first,
/// `headers` only when `header` is absent: when both are present the
/// `headers` content is discarded. A raw string header is printed
/// verbatim line by line after the status line, empty lines skipped; an
/// object header one entry per line; a string body after a separating
/// blank line; and object-valued details last.
pub open spec fn res_section(res: Option<Vec<(String, JsonValue)>>) -> Seq<char> {
    match res {
        None => Seq::<char>::empty(),
        Some(m) => res_section_of(m@),
    }
}

/// The response section of an entry list; see `res_section`.
pub open spec fn res_section_of(e: Seq<(String, JsonValue)>) -> Seq<char> {
    {
        {
            let resolved = if has_key(e, "header"@) {
                lookup(e, "header"@)
            } else {
                lookup(e, "headers"@)
            };
            let part1 = match resolved {
                Some(JsonValue::Str(s)) => status_line(
                    lookup(e, "statusCode"@),
                    raw_header_version(s@),
                ) + ind_lines_skip_empty(lines_of(s@), lines_of(s@).len() as int),
                Some(JsonValue::Obj(h)) => status_line(lookup(e, "statusCode"@), None)
                    + headers_obj_lines(h@, h@.len() as int),
                Some(JsonValue::Null) => status_line(lookup(e, "statusCode"@), None),
                Some(v) => Seq::<char>::empty(),
                None => status_line(lookup(e, "statusCode"@), None),
            };
            let body_part = match lookup(e, "body"@) {
                Some(JsonValue::Str(b)) => if b@.len() > 0 {
                    "\n"@ + ind_lines(lines_of(b@), 0, lines_of(b@).len() as int)
                } else {
                    Seq::<char>::empty()
                },
                _ => Seq::<char>::empty(),
            };
            part1 + body_part + res_extras(e, e.len() as int)
        }
    }
}

pub fn render_res(res: &Option<Vec<(String, JsonValue)>>) -> (out: String)
    ensures
        out@ == res_section(*res),
{
    let mut out = String::new();
    match res {
        None => {},
        Some(m) => {
            let code = get(m, "statusCode");
            let resolved = match get(m, "header") {
                Some(h) => Some(h),
                None => get(m, "headers"),
            };
            match resolved {
                Some(JsonValue::Str(s)) => {
                    let n = s.as_str().unicode_len();
                    if starts_with(s.as_str(), "HTTP/") && n >= 8 {
                        let ver = s.as_str().substring_char(5, 8);
                        push_status_line(&mut out, code, Some(ver));
                        proof {
                            assert(ver@ =~= raw_header_version(s@)->0);
                        }
                    } else {
                        push_status_line(&mut out, code, None);
                        proof {
                            assert(raw_header_version(s@) is None);
                        }
                    }
                    let lines = split_lines(s.as_str());
                    push_ind_lines_skip_empty(&mut out, &lines);
                },
                Some(JsonValue::Obj(h)) => {
                    push_status_line(&mut out, code, None);
                    push_headers_obj(&mut out, h);
                },
                Some(JsonValue::Null) => {
                    push_status_line(&mut out, code, None);
                },
                Some(_) => {},
                None => {
                    push_status_line(&mut out, code, None);
                },
            }
            match get(m, "body") {
                Some(JsonValue::Str(b)) => {
                    if b.as_str().unicode_len() > 0 {
                        out.append("\n");
                        let lines = split_lines(b.as_str());
                        push_ind_lines(&mut out, &lines, 0);
                    }
                },
                _ => {},
            }
            push_res_extras(&mut out, m);
            proof {
                assert(out@ =~= res_section(*res));
            }
        },
    }
    out
}

} // verus!
