//! The long format: the header line with its inline-parameter suffix,
//! then the sections in fixed order — request, client request, response,
//! client response, object-valued extras, error, multiline extras — a
//! divider line standing exactly between consecutive non-empty sections.
//! The short and simple formats are reduced single-line variants of the
//! same header vocabulary.

use vstd::prelude::*;
use crate::level::LogLevel;
use crate::record::BunyanLine;
use crate::text::{spaces, push_spaces, contains_char, str_eq};
use crate::value::{JsonValue, lookup, has_keys, compact, string_or_value, push_string_or_value,
    push_compact, get, is_multiline, is_multiline_string, is_object_with_keys};
use crate::render::{req_section, client_req_section, err_section, multiline_section,
    object_param_chunks, render_req, render_client_req, render_err, render_multiline,
    render_object_params};
use crate::res::{res_section, render_res};

verus! {

// ---------------------------------------------------------------------------
// Header
// ---------------------------------------------------------------------------

/// The source-location decoration: an opening parenthesis and the file
/// when `file` is a string, a `:line` for a string or number `line`, an
/// ` in func` for a string `func`, and a closing parenthesis only when
/// the file was written.
pub open spec fn src_part(src: Option<Vec<(String, JsonValue)>>) -> Seq<char> {
    match src {
        None => Seq::<char>::empty(),
        Some(m) => {
            let e = m@;
            let file_part = match lookup(e, "file"@) {
                Some(JsonValue::Str(f)) => " ("@ + f@,
                _ => Seq::<char>::empty(),
            };
            let line_part = match lookup(e, "line"@) {
                Some(v) => if v is Str || v is Num {
                    ":"@ + string_or_value(v)
                } else {
                    Seq::<char>::empty()
                },
                None => Seq::<char>::empty(),
            };
            let func_part = match lookup(e, "func"@) {
                Some(v) => if v is Str {
                    " in "@ + string_or_value(v)
                } else {
                    Seq::<char>::empty()
                },
                None => Seq::<char>::empty(),
            };
            let close = match lookup(e, "file"@) {
                Some(JsonValue::Str(f)) => ")"@,
                _ => Seq::<char>::empty(),
            };
            file_part + line_part + func_part + close
        },
    }
}

fn push_src_part(out: &mut String, src: &Option<Vec<(String, JsonValue)>>)
    ensures
        final(out)@ == old(out)@ + src_part(*src),
{
    match src {
        None => {},
        Some(m) => {
            let mut wrote_file = false;
            match get(m, "file") {
                Some(JsonValue::Str(f)) => {
                    out.append(" (");
                    out.append(f.as_str());
                    wrote_file = true;
                },
                _ => {},
            }
            match get(m, "line") {
                Some(v) => {
                    let takes = match v {
                        JsonValue::Str(_) => true,
                        JsonValue::Num(_) => true,
                        _ => false,
                    };
                    if takes {
                        out.append(":");
                        push_string_or_value(out, v);
                    }
                },
                None => {},
            }
            match get(m, "func") {
                Some(v) => {
                    let takes = match v {
                        JsonValue::Str(_) => true,
                        _ => false,
                    };
                    if takes {
                        out.append(" in ");
                        push_string_or_value(out, v);
                    }
                },
                None => {},
            }
            if wrote_file {
                out.append(")");
            }
            proof {
                assert(out@ =~= old(out)@ + src_part(*src));
            }
        },
    }
}

/// The header line, up to and including the message, without the inline
/// parameters and without the final line break:
/// `[<time>] <LEVEL>: <name>/[<component>/]<pid> on <hostname>[<src>]: <msg>`.
pub open spec fn header_text(rec: &BunyanLine) -> Seq<char> {
    "["@ + rec.time@ + "] "@ + LogLevel::spec_from_u16(rec.level).spec_padded_name() + ": "@
        + rec.name@ + "/"@ + (match rec.component {
        Some(c) => c@ + "/"@,
        None => Seq::<char>::empty(),
    }) + crate::text::dec_str_of(rec.pid as nat) + " on "@ + rec.hostname@ + src_part(rec.src)
        + ": "@ + rec.msg@
}

pub fn push_header(out: &mut String, rec: &BunyanLine)
    ensures
        final(out)@ == old(out)@ + header_text(rec),
{
    out.append("[");
    out.append(rec.time.as_str());
    out.append("] ");
    let level = LogLevel::from_u16(rec.level);
    let padded = level.padded_name();
    out.append(padded.as_str());
    out.append(": ");
    out.append(rec.name.as_str());
    out.append("/");
    match &rec.component {
        Some(c) => {
            out.append(c.as_str());
            out.append("/");
        },
        None => {},
    }
    crate::text::push_dec_u64(out, rec.pid);
    out.append(" on ");
    out.append(rec.hostname.as_str());
    push_src_part(out, &rec.src);
    out.append(": ");
    out.append(rec.msg.as_str());
    proof {
        assert(out@ =~= old(out)@ + header_text(rec));
    }
}

// ---------------------------------------------------------------------------
// Inline parameters
// ---------------------------------------------------------------------------

/// One `key=value` item, the value quoted when it holds a space.
pub open spec fn quoted_item(key: Seq<char>, text: Seq<char>) -> Seq<char> {
    if text.contains(' ') {
        key + "=\""@ + text + "\""@
    } else {
        key + "="@ + text
    }
}

fn push_quoted_item(out: &mut String, key: &str, text: &str)
    ensures
        final(out)@ == old(out)@ + quoted_item(key@, text@),
{
    out.append(key);
    if contains_char(text, ' ') {
        out.append("=\"");
        out.append(text);
        out.append("\"");
    } else {
        out.append("=");
        out.append(text);
    }
    proof {
        assert(out@ =~= old(out)@ + quoted_item(key@, text@));
    }
}

/// The leading `req_id` item: present exactly when the record's `req_id`
/// is a string, and never quoted. A numeric `req_id` is accepted into
/// the record but has no string form, so it is never shown.
pub open spec fn req_id_items(req_id: Option<JsonValue>) -> Seq<Seq<char>> {
    match req_id {
        Some(JsonValue::Str(s)) => seq!["req_id="@ + s@],
        _ => Seq::<Seq<char>>::empty(),
    }
}

/// Whether an extra entry renders inline: not multiline, not an array,
/// and not a non-empty object.
pub open spec fn inline_eligible(v: JsonValue) -> bool {
    !is_multiline(&v) && !(v is Arr) && !has_keys(&v)
}

/// One inline item for an extra entry: the raw string quoted when it
/// holds a space; any other value as its compact JSON text, never
/// quoted.
pub open spec fn other_item(key: Seq<char>, v: JsonValue) -> Seq<char> {
    match v {
        JsonValue::Str(s) => quoted_item(key, s@),
        _ => key + "="@ + compact(v),
    }
}

/// The inline items of the first `n` extra entries, in insertion order.
pub open spec fn other_items(entries: Seq<(String, JsonValue)>, n: int) -> Seq<Seq<char>>
    decreases n,
{
    if n <= 0 || n > entries.len() {
        Seq::<Seq<char>>::empty()
    } else {
        other_items(entries, n - 1) + if inline_eligible(entries[n - 1].1) {
            seq![other_item(entries[n - 1].0@, entries[n - 1].1)]
        } else {
            Seq::<Seq<char>>::empty()
        }
    }
}

/// The five conventional sub-objects, in their fixed rendering order.
pub enum SubKind {
    Req,
    ClientReq,
    Res,
    ClientRes,
    ErrField,
}

/// The per-sub-object key set whose members are consumed by that
/// section's own renderer rather than the generic inline rendering.
pub open spec fn sub_extra_key(kind: SubKind, k: Seq<char>) -> bool {
    match kind {
        SubKind::Req => k == "method"@ || k == "url"@ || k == "httpVersion"@ || k == "body"@
            || k == "header"@ || k == "headers"@ || k == "trailers"@,
        SubKind::ClientReq => k == "method"@ || k == "url"@ || k == "httpVersion"@ || k
            == "body"@ || k == "header"@ || k == "address"@ || k == "port"@,
        SubKind::Res => k == "statusCode"@ || k == "header"@ || k == "headers"@ || k
            == "trailer"@,
        SubKind::ClientRes => k == "statusCode"@ || k == "body"@ || k == "header"@ || k
            == "headers"@ || k == "trailer"@,
        SubKind::ErrField => k == "message"@ || k == "name"@ || k == "stack"@,
    }
}

fn sub_extra_key_exec(kind: &SubKind, k: &str) -> (r: bool)
    ensures
        r == sub_extra_key(*kind, k@),
{
    match kind {
        SubKind::Req => str_eq(k, "method") || str_eq(k, "url") || str_eq(k, "httpVersion")
            || str_eq(k, "body") || str_eq(k, "header") || str_eq(k, "headers") || str_eq(
            k,
            "trailers",
        ),
        SubKind::ClientReq => str_eq(k, "method") || str_eq(k, "url") || str_eq(
            k,
            "httpVersion",
        ) || str_eq(k, "body") || str_eq(k, "header") || str_eq(k, "address") || str_eq(
            k,
            "port",
        ),
        SubKind::Res => str_eq(k, "statusCode") || str_eq(k, "header") || str_eq(k, "headers")
            || str_eq(k, "trailer"),
        SubKind::ClientRes => str_eq(k, "statusCode") || str_eq(k, "body") || str_eq(
            k,
            "header",
        ) || str_eq(k, "headers") || str_eq(k, "trailer"),
        SubKind::ErrField => str_eq(k, "message") || str_eq(k, "name") || str_eq(k, "stack"),
    }
}

/// Whether a sub-object entry renders inline: an entry outside the key
/// set that is not a non-empty object, or a null or boolean entry inside
/// it — except that a `trailer` or `trailers` key never renders this
/// way.
pub open spec fn sub_eligible(kind: SubKind, k: Seq<char>, v: JsonValue) -> bool {
    (!has_keys(&v) && !sub_extra_key(kind, k)) || (sub_extra_key(kind, k) && k != "trailer"@ && k
        != "trailers"@ && (v is Null || v is Bool))
}

/// One inline item of a sub-object: the key shown as `<label>.<key>`,
/// except that the key `raw_body` collapses to the bare label; the value
/// flattened, and quoted when it holds a space.
pub open spec fn sub_item(label: Seq<char>, k: Seq<char>, v: JsonValue) -> Seq<char> {
    quoted_item(
        if k == "raw_body"@ {
            label
        } else {
            label + "."@ + k
        },
        string_or_value(v),
    )
}

pub open spec fn sub_items_of(
    label: Seq<char>,
    kind: SubKind,
    entries: Seq<(String, JsonValue)>,
    n: int,
) -> Seq<Seq<char>>
    decreases n,
{
    if n <= 0 || n > entries.len() {
        Seq::<Seq<char>>::empty()
    } else {
        sub_items_of(label, kind, entries, n - 1) + if sub_eligible(
            kind,
            entries[n - 1].0@,
            entries[n - 1].1,
        ) {
            seq![sub_item(label, entries[n - 1].0@, entries[n - 1].1)]
        } else {
            Seq::<Seq<char>>::empty()
        }
    }
}

pub open spec fn sub_items(
    label: Seq<char>,
    kind: SubKind,
    m: Option<Vec<(String, JsonValue)>>,
) -> Seq<Seq<char>> {
    match m {
        Some(v) => sub_items_of(label, kind, v@, v@.len() as int),
        None => Seq::<Seq<char>>::empty(),
    }
}

/// Every inline item of a record, in rendering order: `req_id` first,
/// then the eligible extras in insertion order, then the eligible
/// entries of the five sub-objects in their fixed order.
pub open spec fn inline_items(rec: &BunyanLine) -> Seq<Seq<char>> {
    req_id_items(rec.req_id) + other_items(rec.other@, rec.other@.len() as int) + sub_items(
        "req"@,
        SubKind::Req,
        rec.req,
    ) + sub_items("client_req"@, SubKind::ClientReq, rec.client_req) + sub_items(
        "res"@,
        SubKind::Res,
        rec.res,
    ) + sub_items("client_res"@, SubKind::ClientRes, rec.client_res) + sub_items(
        "err"@,
        SubKind::ErrField,
        rec.err,
    )
}

/// Items joined by a comma and a space.
pub open spec fn join_comma(items: Seq<Seq<char>>, n: int) -> Seq<char>
    decreases n,
{
    if n <= 0 || n > items.len() {
        Seq::<char>::empty()
    } else if n == 1 {
        items[0]
    } else {
        join_comma(items, n - 1) + ", "@ + items[n - 1]
    }
}

/// The inline-parameter suffix: nothing at all when there is no item,
/// otherwise the items joined by commas inside one parenthesis.
pub open spec fn inline_params(rec: &BunyanLine) -> Seq<char> {
    let items = inline_items(rec);
    if items.len() == 0 {
        Seq::<char>::empty()
    } else {
        " ("@ + join_comma(items, items.len() as int) + ")"@
    }
}

fn sub_items_exec(
    items: &mut Vec<String>,
    label: &str,
    kind: &SubKind,
    m: &Option<Vec<(String, JsonValue)>>,
)
    ensures
        final(items).deep_view() == old(items).deep_view() + sub_items(label@, *kind, *m),
{
    match m {
        None => {},
        Some(entries) => {
            let n = entries.len();
            let mut i: usize = 0;
            while i < n
                invariant
                    n == entries@.len(),
                    0 <= i <= n,
                    items.deep_view() == old(items).deep_view() + sub_items_of(
                        label@,
                        *kind,
                        entries@,
                        i as int,
                    ),
                decreases n - i,
            {
                let k = entries[i].0.as_str();
                let v = &entries[i].1;
                let in_set = sub_extra_key_exec(kind, k);
                let eligible = (!is_object_with_keys(v) && !in_set) || (in_set && !str_eq(
                    k,
                    "trailer",
                ) && !str_eq(k, "trailers") && (match v {
                    JsonValue::Null => true,
                    JsonValue::Bool(_) => true,
                    _ => false,
                }));
                if eligible {
                    let mut item = String::new();
                    let mut flat = String::new();
                    push_string_or_value(&mut flat, v);
                    if str_eq(k, "raw_body") {
                        push_quoted_item(&mut item, label, flat.as_str());
                    } else {
                        let mut dk = String::from_str(label);
                        dk.append(".");
                        dk.append(k);
                        push_quoted_item(&mut item, dk.as_str(), flat.as_str());
                        proof {
                            assert(dk@ =~= label@ + "."@ + k@);
                        }
                    }
                    let ghost prev = items.deep_view();
                    items.push(item);
                    proof {
                        assert(items.deep_view() =~= prev.push(item@));
                        assert(item@ == sub_item(label@, entries@[i as int].0@, entries@[i as int].1));
                        assert(items.deep_view() =~= old(items).deep_view() + sub_items_of(
                            label@,
                            *kind,
                            entries@,
                            i + 1,
                        ));
                    }
                } else {
                    proof {
                        assert(items.deep_view() =~= old(items).deep_view() + sub_items_of(
                            label@,
                            *kind,
                            entries@,
                            i + 1,
                        ));
                    }
                }
                i = i + 1;
            }
        },
    }
}

pub fn push_inline_params(out: &mut String, rec: &BunyanLine)
    ensures
        final(out)@ == old(out)@ + inline_params(rec),
{
    let mut items: Vec<String> = Vec::new();
    match &rec.req_id {
        Some(JsonValue::Str(s)) => {
            let mut item = String::from_str("req_id=");
            item.append(s.as_str());
            let ghost prev = items.deep_view();
            items.push(item);
            proof {
                assert(items.deep_view() =~= prev.push(item@));
                assert(items.deep_view() =~= req_id_items(rec.req_id));
            }
        },
        _ => {
            proof {
                assert(items.deep_view() =~= req_id_items(rec.req_id));
            }
        },
    }
    let n = rec.other.len();
    let mut i: usize = 0;
    while i < n
        invariant
            n == rec.other@.len(),
            0 <= i <= n,
            items.deep_view() == req_id_items(rec.req_id) + other_items(rec.other@, i as int),
        decreases n - i,
    {
        let v = &rec.other[i].1;
        let eligible = !is_multiline_string(v) && (match v {
            JsonValue::Arr(_) => false,
            _ => true,
        }) && !is_object_with_keys(v);
        if eligible {
            let mut item = String::new();
            match v {
                JsonValue::Str(s) => {
                    push_quoted_item(&mut item, rec.other[i].0.as_str(), s.as_str());
                },
                _ => {
                    item.append(rec.other[i].0.as_str());
                    item.append("=");
                    push_compact(&mut item, v);
                },
            }
            let ghost prev = items.deep_view();
            items.push(item);
            proof {
                assert(items.deep_view() =~= prev.push(item@));
                assert(item@ == other_item(rec.other@[i as int].0@, rec.other@[i as int].1));
                assert(items.deep_view() =~= req_id_items(rec.req_id) + other_items(
                    rec.other@,
                    i + 1,
                ));
            }
        } else {
            proof {
                assert(items.deep_view() =~= req_id_items(rec.req_id) + other_items(
                    rec.other@,
                    i + 1,
                ));
            }
        }
        i = i + 1;
    }
    sub_items_exec(&mut items, "req", &SubKind::Req, &rec.req);
    sub_items_exec(&mut items, "client_req", &SubKind::ClientReq, &rec.client_req);
    sub_items_exec(&mut items, "res", &SubKind::Res, &rec.res);
    sub_items_exec(&mut items, "client_res", &SubKind::ClientRes, &rec.client_res);
    sub_items_exec(&mut items, "err", &SubKind::ErrField, &rec.err);
    proof {
        assert(items.deep_view() =~= inline_items(rec));
    }
    let count = items.len();
    if count == 0 {
        return ;
    }
    out.append(" (");
    let mut j: usize = 0;
    while j < count
        invariant
            count == items@.len(),
            count > 0,
            0 < count == items.deep_view().len(),
            0 <= j <= count,
            items.deep_view() == inline_items(rec),
            out@ == old(out)@ + " ("@ + join_comma(items.deep_view(), j as int),
        decreases count - j,
    {
        if j > 0 {
            out.append(", ");
        }
        out.append(items[j].as_str());
        proof {
            assert(items.deep_view()[j as int] == items@[j as int]@);
            if j == 0 {
                assert(join_comma(items.deep_view(), 1) == items.deep_view()[0]);
            }
            assert(out@ =~= old(out)@ + " ("@ + join_comma(items.deep_view(), j + 1));
        }
        j = j + 1;
    }
    out.append(")");
    proof {
        assert(out@ =~= old(out)@ + inline_params(rec));
    }
}

// ---------------------------------------------------------------------------
// Section assembly
// ---------------------------------------------------------------------------

/// Non-empty chunks joined with exactly one divider line between two
/// consecutive ones: no divider before the first, none after the last,
/// and an empty chunk contributing neither text nor a divider.
pub open spec fn join_sections(chunks: Seq<Seq<char>>) -> Seq<char>
    decreases chunks.len(),
{
    if chunks.len() == 0 {
        Seq::<char>::empty()
    } else {
        let rest = join_sections(chunks.subrange(1, chunks.len() as int));
        if chunks[0].len() == 0 {
            rest
        } else if rest.len() == 0 {
            chunks[0]
        } else {
            chunks[0] + spaces(4) + "--\n"@ + rest
        }
    }
}

fn join_sections_exec(chunks: &Vec<String>, from: usize) -> (out: String)
    requires
        from <= chunks@.len(),
    ensures
        out@ == join_sections(chunks.deep_view().subrange(from as int, chunks.deep_view().len() as int)),
    decreases chunks@.len() - from,
{
    let ghost tail = chunks.deep_view().subrange(from as int, chunks.deep_view().len() as int);
    if from == chunks.len() {
        proof {
            assert(tail =~= Seq::<Seq<char>>::empty());
        }
        return String::new();
    }
    let rest = join_sections_exec(chunks, from + 1);
    proof {
        assert(tail.subrange(1, tail.len() as int) =~= chunks.deep_view().subrange(
            from + 1,
            chunks.deep_view().len() as int,
        ));
        assert(tail[0] == chunks@[from as int]@);
    }
    let head = &chunks[from];
    if head.as_str().unicode_len() == 0 {
        rest
    } else if rest.as_str().unicode_len() == 0 {
        let out = head.clone();
        out
    } else {
        let mut out = head.clone();
        push_spaces(&mut out, 4);
        out.append("--\n");
        out.append(rest.as_str());
        proof {
            assert(out@ =~= join_sections(tail));
        }
        out
    }
}

/// The section chunks of a record, in rendering order. An absent
/// sub-object contributes an empty chunk; each qualifying extra entry is
/// a chunk of its own.
pub open spec fn section_chunks(rec: &BunyanLine) -> Seq<Seq<char>> {
    seq![
        req_section(rec.req),
        client_req_section(rec.client_req),
        res_section(rec.res),
        res_section(rec.client_res),
    ] + object_param_chunks(rec.other@, rec.other@.len() as int) + seq![
        err_section(rec.err),
        multiline_section(rec.other@, rec.other@.len() as int),
    ]
}

/// The whole long rendering of a record.
pub open spec fn long_format(rec: &BunyanLine) -> Seq<char> {
    header_text(rec) + inline_params(rec) + "\n"@ + join_sections(section_chunks(rec))
}

/// The short rendering: the same header vocabulary reduced to time,
/// level, name and message, with the inline parameters, and no sections.
pub open spec fn short_format(rec: &BunyanLine) -> Seq<char> {
    "["@ + rec.time@ + "] "@ + LogLevel::spec_from_u16(rec.level).spec_padded_name() + ": "@
        + rec.name@ + ": "@ + rec.msg@ + inline_params(rec) + "\n"@
}

/// The simple rendering: the padded level and the message alone.
pub open spec fn simple_format(rec: &BunyanLine) -> Seq<char> {
    LogLevel::spec_from_u16(rec.level).spec_padded_name() + ": "@ + rec.msg@ + "\n"@
}

/// The long rendering of the record an entry list decodes to.
pub open spec fn long_format_of(entries: Seq<(String, JsonValue)>) -> Seq<char> {
    long_format(&crate::record::spec_decoded_rec(entries))
}

/// The short rendering of the record an entry list decodes to.
pub open spec fn short_format_of(entries: Seq<(String, JsonValue)>) -> Seq<char> {
    short_format(&crate::record::spec_decoded_rec(entries))
}

/// The simple rendering of the record an entry list decodes to.
pub open spec fn simple_format_of(entries: Seq<(String, JsonValue)>) -> Seq<char> {
    simple_format(&crate::record::spec_decoded_rec(entries))
}

/// Every rendering reads a record only through what decoding pins down,
/// so any record the entries decode to renders the same text.
pub proof fn lemma_format_of_decoded(entries: Seq<(String, JsonValue)>, rec: BunyanLine)
    requires
        crate::record::decoded(entries, rec),
    ensures
        long_format(&rec) == long_format_of(entries),
        short_format(&rec) == short_format_of(entries),
        simple_format(&rec) == simple_format_of(entries),
        rec.level == crate::record::decoded_level(entries),
{
    let r2 = crate::record::spec_decoded_rec(entries);
    assert(crate::record::decoded(entries, r2)) by {
        assert(crate::record::decoded(entries, rec));
    }
    assert(rec.name == r2.name);
    assert(rec.hostname == r2.hostname);
    assert(rec.pid == r2.pid);
    assert(rec.component == r2.component);
    assert(rec.level == r2.level);
    assert(rec.msg == r2.msg);
    assert(rec.time == r2.time);
    assert(rec.src == r2.src);
    assert(rec.req_id == r2.req_id);
    assert(rec.req == r2.req);
    assert(rec.client_req == r2.client_req);
    assert(rec.res == r2.res);
    assert(rec.client_res == r2.client_res);
    assert(rec.err == r2.err);
    assert(rec.other@ == r2.other@);
    assert(header_text(&rec) == header_text(&r2));
    assert(inline_items(&rec) == inline_items(&r2));
    assert(inline_params(&rec) == inline_params(&r2));
    assert(section_chunks(&rec) == section_chunks(&r2));
    assert(long_format(&rec) == long_format(&r2));
    assert(short_format(&rec) == short_format(&r2));
    assert(simple_format(&rec) == simple_format(&r2));
}

impl BunyanLine {
    /// Writes the record in the long format.
    pub fn write_long_format(&self, out: &mut String)
        ensures
            final(out)@ == old(out)@ + long_format(self),
    {
        push_header(out, self);
        push_inline_params(out, self);
        out.append("\n");
        let mut chunks: Vec<String> = Vec::new();
        chunks.push(render_req(&self.req));
        chunks.push(render_client_req(&self.client_req));
        chunks.push(render_res(&self.res));
        chunks.push(render_res(&self.client_res));
        let object_chunks = render_object_params(&self.other);
        let mut oi: usize = 0;
        let obj_count = object_chunks.len();
        proof {
            assert(chunks.deep_view() =~= seq![
                req_section(self.req),
                client_req_section(self.client_req),
                res_section(self.res),
                res_section(self.client_res),
            ]);
        }
        let ghost four = chunks.deep_view();
        while oi < obj_count
            invariant
                obj_count == object_chunks@.len(),
                0 <= oi <= obj_count,
                object_chunks.deep_view() == object_param_chunks(
                    self.other@,
                    self.other@.len() as int,
                ),
                chunks.deep_view() == four + object_chunks.deep_view().subrange(0, oi as int),
            decreases obj_count - oi,
        {
            let ghost prev = chunks.deep_view();
            chunks.push(object_chunks[oi].clone());
            proof {
                assert(chunks.deep_view() =~= prev.push(object_chunks@[oi as int]@));
                assert(chunks.deep_view() =~= four + object_chunks.deep_view().subrange(
                    0,
                    oi + 1,
                ));
            }
            oi = oi + 1;
        }
        proof {
            assert(object_chunks.deep_view().subrange(0, obj_count as int) =~= object_chunks.deep_view());
        }
        let ghost with_objects = chunks.deep_view();
        chunks.push(render_err(&self.err));
        chunks.push(render_multiline(&self.other));
        proof {
            assert(chunks.deep_view() =~= section_chunks(self));
        }
        let body = join_sections_exec(&chunks, 0);
        proof {
            assert(chunks.deep_view().subrange(0, chunks.deep_view().len() as int)
                =~= chunks.deep_view());
        }
        out.append(body.as_str());
        proof {
            assert(out@ =~= old(out)@ + long_format(self));
        }
    }

    /// Writes the record in the short format.
    pub fn write_short_format(&self, out: &mut String)
        ensures
            final(out)@ == old(out)@ + short_format(self),
    {
        out.append("[");
        out.append(self.time.as_str());
        out.append("] ");
        let level = LogLevel::from_u16(self.level);
        let padded = level.padded_name();
        out.append(padded.as_str());
        out.append(": ");
        out.append(self.name.as_str());
        out.append(": ");
        out.append(self.msg.as_str());
        push_inline_params(out, self);
        out.append("\n");
        proof {
            assert(out@ =~= old(out)@ + short_format(self));
        }
    }

    /// Writes the record in the simple format.
    pub fn write_simple_format(&self, out: &mut String)
        ensures
            final(out)@ == old(out)@ + simple_format(self),
    {
        let level = LogLevel::from_u16(self.level);
        let padded = level.padded_name();
        out.append(padded.as_str());
        out.append(": ");
        out.append(self.msg.as_str());
        out.append("\n");
        proof {
            assert(out@ =~= old(out)@ + simple_format(self));
        }
    }
}

} // verus!
