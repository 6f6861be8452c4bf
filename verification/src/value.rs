//! The JSON-like value a decoded log line is made of: a tagged variant with
//! insertion-ordered object entries, plus the shape classifiers and the
//! compact one-line serialization the renderers rely on.

use vstd::prelude::*;
use crate::text::{escape_seq, push_escaped};

verus! {

/// An arbitrary JSON value. A number carries the text the decoder prints
/// for the parsed number, so re-serializing reproduces that text exactly;
/// object entries keep the order of first appearance in the input.
#[derive(Debug, PartialEq, Eq)]
pub enum JsonValue {
    Null,
    Bool(bool),
    Num(String),
    Str(String),
    Arr(Vec<JsonValue>),
    Obj(Vec<(String, JsonValue)>),
}

impl JsonValue {
    pub open spec fn is_string(&self) -> bool {
        self is Str
    }

    pub open spec fn is_number(&self) -> bool {
        self is Num
    }

    pub open spec fn is_array(&self) -> bool {
        self is Arr
    }

    pub open spec fn is_object(&self) -> bool {
        self is Obj
    }
}

// ---------------------------------------------------------------------------
// Shape classifiers
// ---------------------------------------------------------------------------

/// Whether a value renders as a multi-line block: a string that holds a
/// line break or is longer than fifty characters. Nothing else is ever
/// multiline.
pub open spec fn is_multiline(v: &JsonValue) -> bool {
    match v {
        JsonValue::Str(s) => s@.contains('\n') || s@.len() > 50,
        _ => false,
    }
}

pub fn is_multiline_string(v: &JsonValue) -> (r: bool)
    ensures
        r == is_multiline(v),
{
    match v {
        JsonValue::Str(s) => {
            if crate::text::contains_char(s.as_str(), '\n') {
                true
            } else {
                s.as_str().unicode_len() > 50
            }
        },
        _ => false,
    }
}

/// Whether a value is an object with at least one entry.
pub open spec fn has_keys(v: &JsonValue) -> bool {
    match v {
        JsonValue::Obj(entries) => entries@.len() > 0,
        _ => false,
    }
}

pub fn is_object_with_keys(v: &JsonValue) -> (r: bool)
    ensures
        r == has_keys(v),
{
    match v {
        JsonValue::Obj(entries) => entries.len() > 0,
        _ => false,
    }
}

pub fn is_empty_object(v: &JsonValue) -> (r: bool)
    ensures
        r == !has_keys(v),
{
    !is_object_with_keys(v)
}

// ---------------------------------------------------------------------------
// Ordered-object lookup
// ---------------------------------------------------------------------------

/// The value at `key` in an entry list, going by the first entry whose key
/// matches; `None` when no entry does.
pub open spec fn lookup(entries: Seq<(String, JsonValue)>, key: Seq<char>) -> Option<JsonValue>
    decreases entries.len(),
{
    if entries.len() == 0 {
        None
    } else if entries[0].0@ == key {
        Some(entries[0].1)
    } else {
        lookup(entries.subrange(1, entries.len() as int), key)
    }
}

pub open spec fn has_key(entries: Seq<(String, JsonValue)>, key: Seq<char>) -> bool {
    lookup(entries, key) is Some
}

pub fn get<'a>(entries: &'a Vec<(String, JsonValue)>, key: &str) -> (r: Option<&'a JsonValue>)
    ensures
        match r {
            Some(v) => lookup(entries@, key@) == Some(*v),
            None => lookup(entries@, key@) is None,
        },
{
    let n = entries.len();
    let mut i: usize = 0;
    proof {
        assert(entries@.subrange(0, n as int) =~= entries@);
    }
    while i < n
        invariant
            n == entries@.len(),
            0 <= i <= n,
            lookup(entries@, key@) == lookup(entries@.subrange(i as int, n as int), key@),
        decreases n - i,
    {
        let ghost rest = entries@.subrange(i as int, n as int);
        if crate::text::str_eq(entries[i].0.as_str(), key) {
            proof {
                assert(rest[0] == entries@[i as int]);
            }
            return Some(&entries[i].1);
        }
        proof {
            assert(rest[0] == entries@[i as int]);
            assert(rest.subrange(1, rest.len() as int) =~= entries@.subrange(
                i + 1,
                n as int,
            ));
        }
        i = i + 1;
    }
    proof {
        assert(entries@.subrange(i as int, n as int) =~= Seq::<(String, JsonValue)>::empty());
    }
    None
}

// ---------------------------------------------------------------------------
// Compact one-line serialization
// ---------------------------------------------------------------------------

/// The compact JSON text of a value: no added whitespace, strings quoted
/// and escaped, numbers as their original text, object entries in order.
pub open spec fn compact(v: JsonValue) -> Seq<char>
    decreases v, 0int,
{
    match v {
        JsonValue::Null => "null"@,
        JsonValue::Bool(b) => if b {
            "true"@
        } else {
            "false"@
        },
        JsonValue::Num(t) => t@,
        JsonValue::Str(s) => "\""@ + escape_seq(s@) + "\""@,
        JsonValue::Arr(elems) => "["@ + compact_arr(elems@, elems@.len() as int) + "]"@,
        JsonValue::Obj(entries) => "{"@ + compact_obj(entries@, entries@.len() as int) + "}"@,
    }
}

/// The comma-separated compact texts of the first `n` array elements.
pub open spec fn compact_arr(elems: Seq<JsonValue>, n: int) -> Seq<char>
    decreases elems, n,
{
    if n <= 0 || n > elems.len() {
        Seq::<char>::empty()
    } else if n == 1 {
        compact(elems[0])
    } else {
        compact_arr(elems, n - 1) + ","@ + compact(elems[n - 1])
    }
}

/// The comma-separated compact `"key":value` texts of the first `n` object
/// entries.
pub open spec fn compact_obj(entries: Seq<(String, JsonValue)>, n: int) -> Seq<char>
    decreases entries, n,
{
    if n <= 0 || n > entries.len() {
        Seq::<char>::empty()
    } else if n == 1 {
        compact_entry(entries[0])
    } else {
        compact_obj(entries, n - 1) + ","@ + compact_entry(entries[n - 1])
    }
}

pub open spec fn compact_entry(entry: (String, JsonValue)) -> Seq<char>
    decreases entry, 0int,
{
    "\""@ + escape_seq(entry.0@) + "\":"@ + compact(entry.1)
}

pub fn push_compact(out: &mut String, v: &JsonValue)
    ensures
        final(out)@ == old(out)@ + compact(*v),
    decreases v,
{
    match v {
        JsonValue::Null => {
            out.append("null");
        },
        JsonValue::Bool(b) => {
            if *b {
                out.append("true");
            } else {
                out.append("false");
            }
        },
        JsonValue::Num(t) => {
            out.append(t.as_str());
        },
        JsonValue::Str(s) => {
            out.append("\"");
            push_escaped(out, s.as_str());
            out.append("\"");
            proof {
                assert(out@ =~= old(out)@ + compact(*v));
            }
        },
        JsonValue::Arr(elems) => {
            out.append("[");
            let n = elems.len();
            let mut i: usize = 0;
            while i < n
                invariant
                    n == elems@.len(),
                    0 <= i <= n,
                    out@ == old(out)@ + "["@ + compact_arr(elems@, i as int),
                    *v == JsonValue::Arr(*elems),
                decreases n - i,
            {
                if i > 0 {
                    out.append(",");
                }
                proof {
                    assert(decreases_to!(*v => (*v)->Arr_0));
                    assert((*v)->Arr_0 == *elems);
                    assert(decreases_to!(*elems => elems@[i as int]));
                    assert(decreases_to!(*v => elems@[i as int]));
                }
                push_compact(out, &elems[i]);
                proof {
                    if i == 0 {
                        assert(compact_arr(elems@, 1) == compact(elems@[0]));
                        assert(out@ =~= old(out)@ + "["@ + compact_arr(elems@, 1));
                    } else {
                        assert(compact_arr(elems@, i + 1) == compact_arr(elems@, i as int)
                            + ","@ + compact(elems@[i as int]));
                        assert(out@ =~= old(out)@ + "["@ + compact_arr(elems@, i + 1));
                    }
                }
                i = i + 1;
            }
            out.append("]");
            proof {
                assert(out@ =~= old(out)@ + compact(*v));
            }
        },
        JsonValue::Obj(entries) => {
            out.append("{");
            let n = entries.len();
            let mut i: usize = 0;
            while i < n
                invariant
                    n == entries@.len(),
                    0 <= i <= n,
                    out@ == old(out)@ + "{"@ + compact_obj(entries@, i as int),
                    *v == JsonValue::Obj(*entries),
                decreases n - i,
            {
                if i > 0 {
                    out.append(",");
                }
                out.append("\"");
                push_escaped(out, entries[i].0.as_str());
                out.append("\":");
                proof {
                    assert(decreases_to!(*v => (*v)->Obj_0));
                    assert((*v)->Obj_0 == *entries);
                    assert(decreases_to!(*entries => entries@[i as int]));
                    assert(decreases_to!(entries@[i as int] => entries@[i as int].1));
                    assert(decreases_to!(*v => entries@[i as int].1));
                }
                push_compact(out, &entries[i].1);
                proof {
                    assert(compact_entry(entries@[i as int]) == "\""@ + escape_seq(
                        entries@[i as int].0@,
                    ) + "\":"@ + compact(entries@[i as int].1));
                    if i == 0 {
                        assert(compact_obj(entries@, 1) == compact_entry(entries@[0]));
                        assert(out@ =~= old(out)@ + "{"@ + compact_obj(entries@, 1));
                    } else {
                        assert(compact_obj(entries@, i + 1) == compact_obj(entries@, i as int)
                            + ","@ + compact_entry(entries@[i as int]));
                        assert(out@ =~= old(out)@ + "{"@ + compact_obj(entries@, i + 1));
                    }
                }
                i = i + 1;
            }
            out.append("}");
            proof {
                assert(out@ =~= old(out)@ + compact(*v));
            }
        },
    }
}

pub fn compact_string(v: &JsonValue) -> (s: String)
    ensures
        s@ == compact(*v),
{
    let mut out = String::new();
    push_compact(&mut out, v);
    proof {
        assert(out@ =~= compact(*v));
    }
    out
}

// ---------------------------------------------------------------------------
// Scalar-or-JSON-text flattening
// ---------------------------------------------------------------------------

/// A string as its raw characters; anything else as its compact JSON text.
pub open spec fn string_or_value(v: JsonValue) -> Seq<char> {
    match v {
        JsonValue::Str(s) => s@,
        _ => compact(v),
    }
}

pub fn push_string_or_value(out: &mut String, v: &JsonValue)
    ensures
        final(out)@ == old(out)@ + string_or_value(*v),
{
    match v {
        JsonValue::Str(s) => {
            out.append(s.as_str());
        },
        _ => {
            push_compact(out, v);
        },
    }
}

/// What an optional entry contributes under a default: the entry's raw
/// string or compact text when it is there, the default otherwise.
pub open spec fn get_or_default(
    entries: Seq<(String, JsonValue)>,
    key: Seq<char>,
    default: Seq<char>,
) -> Seq<char> {
    match lookup(entries, key) {
        Some(v) => string_or_value(v),
        None => default,
    }
}

pub fn push_get_or_default(
    out: &mut String,
    entries: &Vec<(String, JsonValue)>,
    key: &str,
    default: &str,
)
    ensures
        final(out)@ == old(out)@ + get_or_default(entries@, key@, default@),
{
    match get(entries, key) {
        Some(v) => {
            push_string_or_value(out, v);
        },
        None => {
            out.append(default);
        },
    }
}

} // verus!
