//! The recursive value renderer and the per-section body renderers of the
//! long format. Every renderer returns exactly the text it contributes;
//! an empty result means the section produced nothing.

use vstd::prelude::*;
use crate::text::{spaces, push_spaces, lines_of, split_lines, is_blank, blank};
use crate::value::{
    JsonValue, compact, string_or_value, push_string_or_value, lookup, has_key, get,
    get_or_default, push_get_or_default, has_keys, is_object_with_keys, is_multiline,
    is_multiline_string,
};

verus! {

// ---------------------------------------------------------------------------
// Indented line blocks
// ---------------------------------------------------------------------------

/// Lines `a..b`, each indented four columns and newline-terminated.
pub open spec fn ind_lines(lines: Seq<Seq<char>>, a: int, b: int) -> Seq<char>
    decreases b,
{
    if b <= a || b > lines.len() || a < 0 {
        Seq::<char>::empty()
    } else {
        ind_lines(lines, a, b - 1) + spaces(4) + lines[b - 1] + "\n"@
    }
}

/// Lines `0..b` that are not blank, each indented and newline-terminated.
pub open spec fn ind_lines_skip_blank(lines: Seq<Seq<char>>, b: int) -> Seq<char>
    decreases b,
{
    if b <= 0 || b > lines.len() {
        Seq::<char>::empty()
    } else {
        ind_lines_skip_blank(lines, b - 1) + if is_blank(lines[b - 1]) {
            Seq::<char>::empty()
        } else {
            spaces(4) + lines[b - 1] + "\n"@
        }
    }
}

/// Lines `0..b` that are not empty, each indented and newline-terminated.
pub open spec fn ind_lines_skip_empty(lines: Seq<Seq<char>>, b: int) -> Seq<char>
    decreases b,
{
    if b <= 0 || b > lines.len() {
        Seq::<char>::empty()
    } else {
        ind_lines_skip_empty(lines, b - 1) + if lines[b - 1].len() == 0 {
            Seq::<char>::empty()
        } else {
            spaces(4) + lines[b - 1] + "\n"@
        }
    }
}

pub fn push_ind_lines(out: &mut String, lines: &Vec<String>, a: usize)
    ensures
        final(out)@ == old(out)@ + ind_lines(lines.deep_view(), a as int, lines.deep_view().len() as int),
{
    let n = lines.len();
    let mut i: usize = a;
    if i > n {
        return ;
    }
    while i < n
        invariant
            n == lines@.len(),
            a <= i <= n,
            out@ == old(out)@ + ind_lines(lines.deep_view(), a as int, i as int),
        decreases n - i,
    {
        push_spaces(out, 4);
        out.append(lines[i].as_str());
        out.append("\n");
        proof {
            assert(lines.deep_view()[i as int] == lines@[i as int]@);
            assert(out@ =~= old(out)@ + ind_lines(lines.deep_view(), a as int, i + 1));
        }
        i = i + 1;
    }
}

pub fn push_ind_lines_skip_blank(out: &mut String, lines: &Vec<String>)
    ensures
        final(out)@ == old(out)@ + ind_lines_skip_blank(lines.deep_view(), lines.deep_view().len() as int),
{
    let n = lines.len();
    let mut i: usize = 0;
    while i < n
        invariant
            n == lines@.len(),
            0 <= i <= n,
            out@ == old(out)@ + ind_lines_skip_blank(lines.deep_view(), i as int),
        decreases n - i,
    {
        proof {
            assert(lines.deep_view()[i as int] == lines@[i as int]@);
        }
        if !blank(lines[i].as_str()) {
            push_spaces(out, 4);
            out.append(lines[i].as_str());
            out.append("\n");
        }
        proof {
            assert(out@ =~= old(out)@ + ind_lines_skip_blank(lines.deep_view(), i + 1));
        }
        i = i + 1;
    }
}

pub fn push_ind_lines_skip_empty(out: &mut String, lines: &Vec<String>)
    ensures
        final(out)@ == old(out)@ + ind_lines_skip_empty(lines.deep_view(), lines.deep_view().len() as int),
{
    let n = lines.len();
    let mut i: usize = 0;
    while i < n
        invariant
            n == lines@.len(),
            0 <= i <= n,
            out@ == old(out)@ + ind_lines_skip_empty(lines.deep_view(), i as int),
        decreases n - i,
    {
        proof {
            assert(lines.deep_view()[i as int] == lines@[i as int]@);
        }
        if lines[i].as_str().unicode_len() > 0 {
            push_spaces(out, 4);
            out.append(lines[i].as_str());
            out.append("\n");
        }
        proof {
            assert(out@ =~= old(out)@ + ind_lines_skip_empty(lines.deep_view(), i + 1));
        }
        i = i + 1;
    }
}

// ---------------------------------------------------------------------------
// Recursive value renderer
// ---------------------------------------------------------------------------

/// The indent two levels deeper, saturating at the machine limit.
pub open spec fn bump(ind: usize) -> usize {
    if ind + 2 <= usize::MAX {
        (ind + 2) as usize
    } else {
        ind
    }
}

/// The indented multi-line rendering of a value: scalars as their compact
/// JSON text, an empty object or array inline, a non-empty one opened on
/// its own line with entries two columns deeper, closed at the base indent.
/// The text never ends in a newline; the caller supplies it.
pub open spec fn render_value(v: JsonValue, ind: usize) -> Seq<char>
    decreases v, 0int,
{
    match v {
        JsonValue::Null => "null"@,
        JsonValue::Bool(b) => compact(v),
        JsonValue::Num(t) => compact(v),
        JsonValue::Str(s) => compact(v),
        JsonValue::Arr(elems) => if elems@.len() == 0 {
            "[]"@
        } else {
            "[\n"@ + render_elems(elems@, elems@.len() as int, bump(ind)) + spaces(ind as nat)
                + "]"@
        },
        JsonValue::Obj(entries) => if entries@.len() == 0 {
            "{}"@
        } else {
            "{\n"@ + render_entries(entries@, entries@.len() as int, bump(ind)) + spaces(
                ind as nat,
            ) + "}"@
        },
    }
}

/// The first `n` array elements, each on its own indented line, all but
/// the last followed by a comma.
pub open spec fn render_elems(elems: Seq<JsonValue>, n: int, ind: usize) -> Seq<char>
    decreases elems, n,
{
    if n <= 0 || n > elems.len() {
        Seq::<char>::empty()
    } else {
        render_elems(elems, n - 1, ind) + spaces(ind as nat) + render_value(elems[n - 1], ind)
            + (if n == elems.len() {
            "\n"@
        } else {
            ",\n"@
        })
    }
}

/// The first `n` object entries, each as `"key": value` on its own
/// indented line, all but the last followed by a comma. The key appears
/// verbatim.
pub open spec fn render_entries(entries: Seq<(String, JsonValue)>, n: int, ind: usize) -> Seq<
    char,
>
    decreases entries, n,
{
    if n <= 0 || n > entries.len() {
        Seq::<char>::empty()
    } else {
        render_entries(entries, n - 1, ind) + spaces(ind as nat) + "\""@ + entries[n - 1].0@
            + "\": "@ + render_value(entries[n - 1].1, ind) + (if n == entries.len() {
            "\n"@
        } else {
            ",\n"@
        })
    }
}

pub fn push_render_value(out: &mut String, v: &JsonValue, ind: usize)
    ensures
        final(out)@ == old(out)@ + render_value(*v, ind),
    decreases v,
{
    match v {
        JsonValue::Null => {
            out.append("null");
        },
        JsonValue::Bool(b) => {
            crate::value::push_compact(out, v);
        },
        JsonValue::Num(t) => {
            crate::value::push_compact(out, v);
        },
        JsonValue::Str(s) => {
            crate::value::push_compact(out, v);
        },
        JsonValue::Arr(elems) => {
            if elems.len() == 0 {
                out.append("[]");
            } else {
                out.append("[\n");
                let new_ind = if ind <= usize::MAX - 2 {
                    ind + 2
                } else {
                    ind
                };
                let n = elems.len();
                let mut i: usize = 0;
                while i < n
                    invariant
                        n == elems@.len(),
                        n > 0,
                        0 <= i <= n,
                        new_ind == bump(ind),
                        out@ == old(out)@ + "[\n"@ + render_elems(elems@, i as int, new_ind),
                        *v == JsonValue::Arr(*elems),
                    decreases n - i,
                {
                    push_spaces(out, new_ind);
                    proof {
                        assert(decreases_to!(*v => (*v)->Arr_0));
                        assert((*v)->Arr_0 == *elems);
                        assert(decreases_to!(*elems => elems@[i as int]));
                        assert(decreases_to!(*v => elems@[i as int]));
                    }
                    push_render_value(out, &elems[i], new_ind);
                    if i + 1 == n {
                        out.append("\n");
                    } else {
                        out.append(",\n");
                    }
                    proof {
                        assert(out@ =~= old(out)@ + "[\n"@ + render_elems(
                            elems@,
                            i + 1,
                            new_ind,
                        ));
                    }
                    i = i + 1;
                }
                push_spaces(out, ind);
                out.append("]");
                proof {
                    assert(out@ =~= old(out)@ + render_value(*v, ind));
                }
            }
        },
        JsonValue::Obj(entries) => {
            if entries.len() == 0 {
                out.append("{}");
            } else {
                out.append("{\n");
                let new_ind = if ind <= usize::MAX - 2 {
                    ind + 2
                } else {
                    ind
                };
                let n = entries.len();
                let mut i: usize = 0;
                while i < n
                    invariant
                        n == entries@.len(),
                        n > 0,
                        0 <= i <= n,
                        new_ind == bump(ind),
                        out@ == old(out)@ + "{\n"@ + render_entries(entries@, i as int, new_ind),
                        *v == JsonValue::Obj(*entries),
                    decreases n - i,
                {
                    push_spaces(out, new_ind);
                    out.append("\"");
                    out.append(entries[i].0.as_str());
                    out.append("\": ");
                    proof {
                        assert(decreases_to!(*v => (*v)->Obj_0));
                        assert((*v)->Obj_0 == *entries);
                        assert(decreases_to!(*entries => entries@[i as int]));
                        assert(decreases_to!(entries@[i as int] => entries@[i as int].1));
                        assert(decreases_to!(*v => entries@[i as int].1));
                    }
                    push_render_value(out, &entries[i].1, new_ind);
                    if i + 1 == n {
                        out.append("\n");
                    } else {
                        out.append(",\n");
                    }
                    proof {
                        assert(out@ =~= old(out)@ + "{\n"@ + render_entries(
                            entries@,
                            i + 1,
                            new_ind,
                        ));
                    }
                    i = i + 1;
                }
                push_spaces(out, ind);
                out.append("}");
                proof {
                    assert(out@ =~= old(out)@ + render_value(*v, ind));
                }
            }
        },
    }
}

// ---------------------------------------------------------------------------
// Header/detail helpers shared by the request and response sections
// ---------------------------------------------------------------------------

/// One detail entry: `<indent><key>:`, the first line of the flattened
/// value continuing on the same line, later lines indented on their own;
/// a value that flattens to no lines leaves the entry unterminated, and a
/// plain-string value contributes its non-blank lines only.
pub open spec fn kv_entry(key: Seq<char>, v: JsonValue) -> Seq<char> {
    let lines = lines_of(string_or_value(v));
    spaces(4) + key + ":"@ + if lines.len() == 0 {
        Seq::<char>::empty()
    } else {
        " "@ + lines[0] + "\n"@ + ind_lines(lines, 1, lines.len() as int)
    }
}

/// The detail lines a `header`, `headers` or `trailers` value produces:
/// one `key: value` entry per object key, or the non-blank lines of a
/// plain string; nothing for any other shape.
pub open spec fn keys_and_vals(v: JsonValue) -> Seq<char> {
    match v {
        JsonValue::Obj(entries) => kv_entries(entries@, entries@.len() as int),
        JsonValue::Str(s) => ind_lines_skip_blank(lines_of(s@), lines_of(s@).len() as int),
        _ => Seq::<char>::empty(),
    }
}

pub open spec fn kv_entries(entries: Seq<(String, JsonValue)>, n: int) -> Seq<char>
    decreases n,
{
    if n <= 0 || n > entries.len() {
        Seq::<char>::empty()
    } else {
        kv_entries(entries, n - 1) + kv_entry(entries[n - 1].0@, entries[n - 1].1)
    }
}

pub fn push_kv_entry(out: &mut String, key: &str, v: &JsonValue)
    ensures
        final(out)@ == old(out)@ + kv_entry(key@, *v),
{
    push_spaces(out, 4);
    out.append(key);
    out.append(":");
    let mut flat = String::new();
    push_string_or_value(&mut flat, v);
    let lines = split_lines(flat.as_str());
    proof {
        assert(lines.deep_view() == lines_of(string_or_value(*v)));
    }
    if lines.len() > 0 {
        out.append(" ");
        out.append(lines[0].as_str());
        out.append("\n");
        proof {
            assert(lines.deep_view()[0] == lines@[0]@);
        }
        push_ind_lines(out, &lines, 1);
    }
    proof {
        assert(out@ =~= old(out)@ + kv_entry(key@, *v));
    }
}

pub fn push_keys_and_vals(out: &mut String, v: &JsonValue)
    ensures
        final(out)@ == old(out)@ + keys_and_vals(*v),
{
    match v {
        JsonValue::Obj(entries) => {
            let n = entries.len();
            let mut i: usize = 0;
            while i < n
                invariant
                    n == entries@.len(),
                    0 <= i <= n,
                    out@ == old(out)@ + kv_entries(entries@, i as int),
                decreases n - i,
            {
                push_kv_entry(out, entries[i].0.as_str(), &entries[i].1);
                proof {
                    assert(out@ =~= old(out)@ + kv_entries(entries@, i + 1));
                }
                i = i + 1;
            }
        },
        JsonValue::Str(s) => {
            let lines = split_lines(s.as_str());
            push_ind_lines_skip_blank(out, &lines);
        },
        _ => {},
    }
}

// ---------------------------------------------------------------------------
// Request sections
// ---------------------------------------------------------------------------

/// The request summary line: method, URL and HTTP version with their
/// defaults, indented and newline-terminated.
pub open spec fn req_summary(entries: Seq<(String, JsonValue)>) -> Seq<char> {
    spaces(4) + get_or_default(entries, "method"@, "undefined"@) + " "@ + get_or_default(
        entries,
        "url"@,
        "undefined"@,
    ) + " HTTP/"@ + get_or_default(entries, "httpVersion"@, "1.1"@) + "\n"@
}

pub fn push_req_summary(out: &mut String, entries: &Vec<(String, JsonValue)>)
    ensures
        final(out)@ == old(out)@ + req_summary(entries@),
{
    push_spaces(out, 4);
    push_get_or_default(out, entries, "method", "undefined");
    out.append(" ");
    push_get_or_default(out, entries, "url", "undefined");
    out.append(" HTTP/");
    push_get_or_default(out, entries, "httpVersion", "1.1");
    out.append("\n");
    proof {
        assert(out@ =~= old(out)@ + req_summary(entries@));
    }
}

/// The request body: its flattened text split on its own line breaks,
/// each line indented; an empty body keeps one empty indented line.
pub open spec fn req_body_block(v: JsonValue) -> Seq<char> {
    let flat = string_or_value(v);
    if flat.len() == 0 {
        spaces(4) + "\n"@
    } else {
        ind_lines(lines_of(flat), 0, lines_of(flat).len() as int)
    }
}

/// The request detail block: header entries, then headers, then the body
/// lines, then trailers.
pub open spec fn req_details(entries: Seq<(String, JsonValue)>) -> Seq<char> {
    (match lookup(entries, "header"@) {
        Some(v) => keys_and_vals(v),
        None => Seq::<char>::empty(),
    }) + (match lookup(entries, "headers"@) {
        Some(v) => keys_and_vals(v),
        None => Seq::<char>::empty(),
    }) + (match lookup(entries, "body"@) {
        Some(v) => req_body_block(v),
        None => Seq::<char>::empty(),
    }) + (match lookup(entries, "trailers"@) {
        Some(v) => keys_and_vals(v),
        None => Seq::<char>::empty(),
    })
}

pub fn push_req_details(out: &mut String, entries: &Vec<(String, JsonValue)>)
    ensures
        final(out)@ == old(out)@ + req_details(entries@),
{
    match get(entries, "header") {
        Some(v) => {
            push_keys_and_vals(out, v);
        },
        None => {},
    }
    match get(entries, "headers") {
        Some(v) => {
            push_keys_and_vals(out, v);
        },
        None => {},
    }
    match get(entries, "body") {
        Some(v) => {
            let mut flat = String::new();
            push_string_or_value(&mut flat, v);
            if flat.as_str().unicode_len() == 0 {
                push_spaces(out, 4);
                out.append("\n");
            } else {
                let lines = split_lines(flat.as_str());
                push_ind_lines(out, &lines, 0);
            }
            proof {
                assert(out@ =~= old(out)@ + (match lookup(entries@, "header"@) {
                    Some(w) => keys_and_vals(w),
                    None => Seq::<char>::empty(),
                }) + (match lookup(entries@, "headers"@) {
                    Some(w) => keys_and_vals(w),
                    None => Seq::<char>::empty(),
                }) + req_body_block(*v));
            }
        },
        None => {},
    }
    match get(entries, "trailers") {
        Some(v) => {
            push_keys_and_vals(out, v);
        },
        None => {},
    }
    proof {
        assert(out@ =~= old(out)@ + req_details(entries@));
    }
}

/// The whole `req` section: summary line then details.
pub open spec fn req_section(req: Option<Vec<(String, JsonValue)>>) -> Seq<char> {
    match req {
        Some(m) => req_summary(m@) + req_details(m@),
        None => Seq::<char>::empty(),
    }
}

pub fn render_req(req: &Option<Vec<(String, JsonValue)>>) -> (out: String)
    ensures
        out@ == req_section(*req),
{
    let mut out = String::new();
    match req {
        Some(m) => {
            push_req_summary(&mut out, m);
            push_req_details(&mut out, m);
            proof {
                assert(out@ =~= req_section(*req));
            }
        },
        None => {},
    }
    out
}

/// The `Host:` line of a client request: present only when `address` is a
/// string, the port appended only when it is a string or a number.
pub open spec fn host_line(entries: Seq<(String, JsonValue)>) -> Seq<char> {
    match lookup(entries, "address"@) {
        Some(JsonValue::Str(a)) => spaces(4) + "Host: "@ + a@ + (match lookup(
            entries,
            "port"@,
        ) {
            Some(p) => if p is Str || p is Num {
                ":"@ + string_or_value(p)
            } else {
                Seq::<char>::empty()
            },
            None => Seq::<char>::empty(),
        }) + "\n"@,
        _ => Seq::<char>::empty(),
    }
}

/// The whole `client_req` section: summary, host line, details.
pub open spec fn client_req_section(req: Option<Vec<(String, JsonValue)>>) -> Seq<char> {
    match req {
        Some(m) => req_summary(m@) + host_line(m@) + req_details(m@),
        None => Seq::<char>::empty(),
    }
}

pub fn render_client_req(req: &Option<Vec<(String, JsonValue)>>) -> (out: String)
    ensures
        out@ == client_req_section(*req),
{
    let mut out = String::new();
    match req {
        Some(m) => {
            push_req_summary(&mut out, m);
            match get(m, "address") {
                Some(a) => {
                    match a {
                        JsonValue::Str(addr) => {
                            push_spaces(&mut out, 4);
                            out.append("Host: ");
                            out.append(addr.as_str());
                            match get(m, "port") {
                                Some(p) => {
                                    let takes_port = match p {
                                        JsonValue::Str(_) => true,
                                        JsonValue::Num(_) => true,
                                        _ => false,
                                    };
                                    if takes_port {
                                        out.append(":");
                                        push_string_or_value(&mut out, p);
                                    }
                                },
                                None => {},
                            }
                            out.append("\n");
                        },
                        _ => {},
                    }
                },
                None => {},
            }
            proof {
                assert(out@ =~= req_summary(m@) + host_line(m@));
            }
            push_req_details(&mut out, m);
            proof {
                assert(out@ =~= client_req_section(*req));
            }
        },
        None => {},
    }
    out
}

// ---------------------------------------------------------------------------
// Error section
// ---------------------------------------------------------------------------

/// The `err` section: the lines of a string `stack`, or each element of
/// an array `stack` flattened onto its own line; nothing otherwise.
pub open spec fn err_stack_elems(elems: Seq<JsonValue>, n: int) -> Seq<char>
    decreases n,
{
    if n <= 0 || n > elems.len() {
        Seq::<char>::empty()
    } else {
        err_stack_elems(elems, n - 1) + spaces(4) + string_or_value(elems[n - 1]) + "\n"@
    }
}

pub open spec fn err_section(err: Option<Vec<(String, JsonValue)>>) -> Seq<char> {
    match err {
        Some(m) => match lookup(m@, "stack"@) {
            Some(JsonValue::Str(s)) => ind_lines(
                lines_of(s@),
                0,
                lines_of(s@).len() as int,
            ),
            Some(JsonValue::Arr(elems)) => err_stack_elems(elems@, elems@.len() as int),
            _ => Seq::<char>::empty(),
        },
        None => Seq::<char>::empty(),
    }
}

pub fn render_err(err: &Option<Vec<(String, JsonValue)>>) -> (out: String)
    ensures
        out@ == err_section(*err),
{
    let mut out = String::new();
    match err {
        Some(m) => {
            match get(m, "stack") {
                Some(stack) => {
                    match stack {
                        JsonValue::Str(s) => {
                            let lines = split_lines(s.as_str());
                            push_ind_lines(&mut out, &lines, 0);
                            proof {
                                assert(out@ =~= err_section(*err));
                            }
                        },
                        JsonValue::Arr(elems) => {
                            let n = elems.len();
                            let mut i: usize = 0;
                            while i < n
                                invariant
                                    n == elems@.len(),
                                    0 <= i <= n,
                                    out@ == err_stack_elems(elems@, i as int),
                                decreases n - i,
                            {
                                push_spaces(&mut out, 4);
                                push_string_or_value(&mut out, &elems[i]);
                                out.append("\n");
                                proof {
                                    assert(out@ =~= err_stack_elems(elems@, i + 1));
                                }
                                i = i + 1;
                            }
                            proof {
                                assert(out@ =~= err_section(*err));
                            }
                        },
                        _ => {},
                    }
                },
                None => {},
            }
        },
        None => {},
    }
    out
}

// ---------------------------------------------------------------------------
// Extra-field sections
// ---------------------------------------------------------------------------

/// The multiline block of one extra entry: `<indent><key>: <first line>`,
/// later lines indented on their own.
pub open spec fn multiline_entry(key: Seq<char>, s: Seq<char>) -> Seq<char> {
    let lines = lines_of(s);
    if lines.len() == 0 {
        spaces(4) + key + ": "@
    } else {
        spaces(4) + key + ": "@ + lines[0] + "\n"@ + ind_lines(lines, 1, lines.len() as int)
    }
}

/// The multiline-extras section: every `other` entry whose value is
/// multiline, as a block, in insertion order.
pub open spec fn multiline_section(entries: Seq<(String, JsonValue)>, n: int) -> Seq<char>
    decreases n,
{
    if n <= 0 || n > entries.len() {
        Seq::<char>::empty()
    } else {
        multiline_section(entries, n - 1) + (match entries[n - 1].1 {
            JsonValue::Str(s) => if is_multiline(&entries[n - 1].1) {
                multiline_entry(entries[n - 1].0@, s@)
            } else {
                Seq::<char>::empty()
            },
            _ => Seq::<char>::empty(),
        })
    }
}

pub fn render_multiline(entries: &Vec<(String, JsonValue)>) -> (out: String)
    ensures
        out@ == multiline_section(entries@, entries@.len() as int),
{
    let mut out = String::new();
    let n = entries.len();
    let mut i: usize = 0;
    while i < n
        invariant
            n == entries@.len(),
            0 <= i <= n,
            out@ == multiline_section(entries@, i as int),
        decreases n - i,
    {
        if is_multiline_string(&entries[i].1) {
            match &entries[i].1 {
                JsonValue::Str(s) => {
                    push_spaces(&mut out, 4);
                    out.append(entries[i].0.as_str());
                    out.append(": ");
                    let lines = split_lines(s.as_str());
                    if lines.len() > 0 {
                        out.append(lines[0].as_str());
                        out.append("\n");
                        proof {
                            assert(lines.deep_view()[0] == lines@[0]@);
                        }
                        push_ind_lines(&mut out, &lines, 1);
                    }
                    proof {
                        assert(out@ =~= multiline_section(entries@, i + 1));
                    }
                },
                _ => {
                    proof {
                        assert(false);
                    }
                },
            }
        }
        proof {
            assert(out@ =~= multiline_section(entries@, i + 1));
        }
        i = i + 1;
    }
    out
}

/// Whether an extra entry renders as its own object-valued section: a
/// non-empty object, or any array.
pub open spec fn is_object_param(v: JsonValue) -> bool {
    has_keys(&v) || v is Arr
}

/// The object-valued extra sections, one chunk per qualifying entry:
/// `<indent><key>: ` followed by the recursive rendering at the base
/// indent and a closing newline.
pub open spec fn object_param_chunks(entries: Seq<(String, JsonValue)>, n: int) -> Seq<Seq<char>>
    decreases n,
{
    if n <= 0 || n > entries.len() {
        Seq::<Seq<char>>::empty()
    } else {
        object_param_chunks(entries, n - 1) + if is_object_param(entries[n - 1].1) {
            seq![
                spaces(4) + entries[n - 1].0@ + ": "@ + render_value(entries[n - 1].1, 4)
                    + "\n"@,
            ]
        } else {
            Seq::<Seq<char>>::empty()
        }
    }
}

pub fn render_object_params(entries: &Vec<(String, JsonValue)>) -> (chunks: Vec<String>)
    ensures
        chunks.deep_view() == object_param_chunks(entries@, entries@.len() as int),
{
    let mut chunks: Vec<String> = Vec::new();
    let n = entries.len();
    let mut i: usize = 0;
    proof {
        assert(chunks.deep_view() =~= object_param_chunks(entries@, 0));
    }
    while i < n
        invariant
            n == entries@.len(),
            0 <= i <= n,
            chunks.deep_view() == object_param_chunks(entries@, i as int),
        decreases n - i,
    {
        let qualifies = if is_object_with_keys(&entries[i].1) {
            true
        } else {
            match &entries[i].1 {
                JsonValue::Arr(_) => true,
                _ => false,
            }
        };
        if qualifies {
            let mut chunk = String::new();
            push_spaces(&mut chunk, 4);
            chunk.append(entries[i].0.as_str());
            chunk.append(": ");
            push_render_value(&mut chunk, &entries[i].1, 4);
            chunk.append("\n");
            let ghost prev = chunks.deep_view();
            chunks.push(chunk);
            proof {
                assert(chunks.deep_view() =~= prev.push(chunk@));
                assert(chunks.deep_view() =~= object_param_chunks(entries@, i + 1));
            }
        } else {
            proof {
                assert(chunks.deep_view() =~= object_param_chunks(entries@, i + 1));
            }
        }
        i = i + 1;
    }
    chunks
}

} // verus!
