//! The record model: the typed view of one decoded log line, and the
//! decoder that builds it from a parsed JSON value, rejecting lines that
//! lack a required field or give one the wrong shape.

use vstd::prelude::*;
use crate::value::{JsonValue, lookup};
use crate::text::{parse_dec_bounded, str_eq};

verus! {

/// One decoded log record: the required fields, the optional conventional
/// sub-objects, and the ordered bag of extra fields.
pub struct BunyanLine {
    pub name: String,
    pub hostname: String,
    pub pid: u64,
    pub component: Option<String>,
    pub level: u16,
    pub msg: String,
    pub time: String,
    pub v: Option<u8>,
    pub src: Option<Vec<(String, JsonValue)>>,
    pub req_id: Option<JsonValue>,
    pub req: Option<Vec<(String, JsonValue)>>,
    pub client_req: Option<Vec<(String, JsonValue)>>,
    pub res: Option<Vec<(String, JsonValue)>>,
    pub client_res: Option<Vec<(String, JsonValue)>>,
    pub err: Option<Vec<(String, JsonValue)>>,
    pub other: Vec<(String, JsonValue)>,
}

/// The keys the record model consumes; everything else is an extra field.
pub open spec fn known_key(k: Seq<char>) -> bool {
    ||| k == "name"@
    ||| k == "hostname"@
    ||| k == "pid"@
    ||| k == "component"@
    ||| k == "level"@
    ||| k == "msg"@
    ||| k == "time"@
    ||| k == "v"@
    ||| k == "src"@
    ||| k == "req_id"@
    ||| k == "req"@
    ||| k == "client_req"@
    ||| k == "res"@
    ||| k == "client_res"@
    ||| k == "err"@
}

fn known_key_exec(k: &str) -> (r: bool)
    ensures
        r == known_key(k@),
{
    str_eq(k, "name") || str_eq(k, "hostname") || str_eq(k, "pid") || str_eq(k, "component")
        || str_eq(k, "level") || str_eq(k, "msg") || str_eq(k, "time") || str_eq(k, "v")
        || str_eq(k, "src") || str_eq(k, "req_id") || str_eq(k, "req") || str_eq(
        k,
        "client_req",
    ) || str_eq(k, "res") || str_eq(k, "client_res") || str_eq(k, "err")
}

/// The extra fields of an entry list: every entry whose key the record
/// model does not consume, in order.
pub open spec fn others_of(entries: Seq<(String, JsonValue)>) -> Seq<(String, JsonValue)>
    decreases entries.len(),
{
    if entries.len() == 0 {
        Seq::<(String, JsonValue)>::empty()
    } else {
        others_of(entries.drop_last()) + if known_key(entries.last().0@) {
            Seq::<(String, JsonValue)>::empty()
        } else {
            seq![entries.last()]
        }
    }
}

// ---------------------------------------------------------------------------
// Validity
// ---------------------------------------------------------------------------

pub open spec fn str_field_ok(entries: Seq<(String, JsonValue)>, key: Seq<char>) -> bool {
    match lookup(entries, key) {
        Some(v) => v is Str,
        None => false,
    }
}

pub open spec fn opt_str_field_ok(entries: Seq<(String, JsonValue)>, key: Seq<char>) -> bool {
    match lookup(entries, key) {
        Some(v) => v is Str,
        None => true,
    }
}

pub open spec fn opt_obj_field_ok(entries: Seq<(String, JsonValue)>, key: Seq<char>) -> bool {
    match lookup(entries, key) {
        Some(v) => v is Obj,
        None => true,
    }
}

pub open spec fn num_field_ok(
    entries: Seq<(String, JsonValue)>,
    key: Seq<char>,
    bound: nat,
) -> bool {
    match lookup(entries, key) {
        Some(v) => v is Num && parse_dec_bounded(v->Num_0@, bound) is Some,
        None => false,
    }
}

pub open spec fn opt_num_field_ok(
    entries: Seq<(String, JsonValue)>,
    key: Seq<char>,
    bound: nat,
) -> bool {
    match lookup(entries, key) {
        Some(v) => v is Num && parse_dec_bounded(v->Num_0@, bound) is Some,
        None => true,
    }
}

/// When an object's entries make a valid record: the six required fields
/// are present with their required shapes, and every optional field that
/// is present has its required shape.
pub open spec fn valid_record(entries: Seq<(String, JsonValue)>) -> bool {
    &&& str_field_ok(entries, "name"@)
    &&& str_field_ok(entries, "hostname"@)
    &&& num_field_ok(entries, "pid"@, u64::MAX as nat)
    &&& num_field_ok(entries, "level"@, u16::MAX as nat)
    &&& str_field_ok(entries, "msg"@)
    &&& str_field_ok(entries, "time"@)
    &&& opt_num_field_ok(entries, "v"@, u8::MAX as nat)
    &&& opt_str_field_ok(entries, "component"@)
    &&& opt_obj_field_ok(entries, "src"@)
    &&& opt_obj_field_ok(entries, "req"@)
    &&& opt_obj_field_ok(entries, "client_req"@)
    &&& opt_obj_field_ok(entries, "res"@)
    &&& opt_obj_field_ok(entries, "client_res"@)
    &&& opt_obj_field_ok(entries, "err"@)
}

/// The message reported for an invalid record: the first field, in a
/// fixed order, that is missing or has the wrong shape.
pub open spec fn decode_error_msg(entries: Seq<(String, JsonValue)>) -> Seq<char> {
    if !str_field_ok(entries, "name"@) {
        "invalid or missing field: name"@
    } else if !str_field_ok(entries, "hostname"@) {
        "invalid or missing field: hostname"@
    } else if !num_field_ok(entries, "pid"@, u64::MAX as nat) {
        "invalid or missing field: pid"@
    } else if !num_field_ok(entries, "level"@, u16::MAX as nat) {
        "invalid or missing field: level"@
    } else if !str_field_ok(entries, "msg"@) {
        "invalid or missing field: msg"@
    } else if !str_field_ok(entries, "time"@) {
        "invalid or missing field: time"@
    } else if !opt_num_field_ok(entries, "v"@, u8::MAX as nat) {
        "invalid field: v"@
    } else if !opt_str_field_ok(entries, "component"@) {
        "invalid field: component"@
    } else if !opt_obj_field_ok(entries, "src"@) {
        "invalid field: src"@
    } else if !opt_obj_field_ok(entries, "req"@) {
        "invalid field: req"@
    } else if !opt_obj_field_ok(entries, "client_req"@) {
        "invalid field: client_req"@
    } else if !opt_obj_field_ok(entries, "res"@) {
        "invalid field: res"@
    } else if !opt_obj_field_ok(entries, "client_res"@) {
        "invalid field: client_res"@
    } else {
        "invalid field: err"@
    }
}

/// How a decoded record's fields correspond to the entries it came from.
pub open spec fn decoded(entries: Seq<(String, JsonValue)>, rec: BunyanLine) -> bool {
    &&& rec.name == lookup(entries, "name"@)->Some_0->Str_0
    &&& rec.hostname == lookup(entries, "hostname"@)->Some_0->Str_0
    &&& rec.pid as nat == crate::text::dec_val(lookup(entries, "pid"@)->Some_0->Num_0@)
    &&& rec.level as nat == crate::text::dec_val(lookup(entries, "level"@)->Some_0->Num_0@)
    &&& rec.msg == lookup(entries, "msg"@)->Some_0->Str_0
    &&& rec.time == lookup(entries, "time"@)->Some_0->Str_0
    &&& (match lookup(entries, "v"@) {
        Some(w) => rec.v is Some && rec.v->0 as nat == crate::text::dec_val(w->Num_0@),
        None => rec.v is None,
    })
    &&& (match lookup(entries, "component"@) {
        Some(w) => rec.component == Some(w->Str_0),
        None => rec.component is None,
    })
    &&& (match lookup(entries, "src"@) {
        Some(w) => rec.src == Some(w->Obj_0),
        None => rec.src is None,
    })
    &&& rec.req_id == lookup(entries, "req_id"@)
    &&& (match lookup(entries, "req"@) {
        Some(w) => rec.req == Some(w->Obj_0),
        None => rec.req is None,
    })
    &&& (match lookup(entries, "client_req"@) {
        Some(w) => rec.client_req == Some(w->Obj_0),
        None => rec.client_req is None,
    })
    &&& (match lookup(entries, "res"@) {
        Some(w) => rec.res == Some(w->Obj_0),
        None => rec.res is None,
    })
    &&& (match lookup(entries, "client_res"@) {
        Some(w) => rec.client_res == Some(w->Obj_0),
        None => rec.client_res is None,
    })
    &&& (match lookup(entries, "err"@) {
        Some(w) => rec.err == Some(w->Obj_0),
        None => rec.err is None,
    })
    &&& rec.other@ == others_of(entries)
}

/// Some record the entries decode to; the decoder's result agrees with
/// it on everything a rendering reads.
pub open spec fn spec_decoded_rec(entries: Seq<(String, JsonValue)>) -> BunyanLine {
    choose|rec: BunyanLine| decoded(entries, rec)
}

/// The numeric level a valid record carries.
pub open spec fn decoded_level(entries: Seq<(String, JsonValue)>) -> u16 {
    crate::text::dec_val(lookup(entries, "level"@)->Some_0->Num_0@) as u16
}

// ---------------------------------------------------------------------------
// Lookup lemmas
// ---------------------------------------------------------------------------

pub proof fn lemma_lookup_append(
    a: Seq<(String, JsonValue)>,
    b: Seq<(String, JsonValue)>,
    key: Seq<char>,
)
    ensures
        lookup(a + b, key) == (match lookup(a, key) {
            Some(v) => Some(v),
            None => lookup(b, key),
        }),
    decreases a.len(),
{
    if a.len() == 0 {
        assert(a + b =~= b);
    } else {
        assert((a + b)[0] == a[0]);
        assert((a + b).subrange(1, (a + b).len() as int) =~= a.subrange(1, a.len() as int) + b);
        lemma_lookup_append(a.subrange(1, a.len() as int), b, key);
    }
}

pub proof fn lemma_lookup_push(a: Seq<(String, JsonValue)>, e: (String, JsonValue), key: Seq<char>)
    ensures
        lookup(a.push(e), key) == (match lookup(a, key) {
            Some(v) => Some(v),
            None => if e.0@ == key {
                Some(e.1)
            } else {
                None
            },
        }),
{
    assert(a.push(e) =~= a + seq![e]);
    lemma_lookup_append(a, seq![e], key);
    assert(lookup(seq![e], key) == (if e.0@ == key {
        Some(e.1)
    } else {
        None
    })) by {
        let single = seq![e];
        assert(single.len() == 1);
        assert(single[0] == e);
        if e.0@ != key {
            assert(single.subrange(1, 1) =~= Seq::<(String, JsonValue)>::empty());
            assert(lookup(single, key) == lookup(single.subrange(1, 1), key));
        }
    }
}

/// The fifteen known keys are pairwise distinct.
pub proof fn lemma_keys_distinct()
    ensures
        "name"@ != "hostname"@,
        "name"@ != "pid"@,
        "name"@ != "component"@,
        "name"@ != "level"@,
        "name"@ != "msg"@,
        "name"@ != "time"@,
        "name"@ != "v"@,
        "name"@ != "src"@,
        "name"@ != "req_id"@,
        "name"@ != "req"@,
        "name"@ != "client_req"@,
        "name"@ != "res"@,
        "name"@ != "client_res"@,
        "name"@ != "err"@,
        "hostname"@ != "pid"@,
        "hostname"@ != "component"@,
        "hostname"@ != "level"@,
        "hostname"@ != "msg"@,
        "hostname"@ != "time"@,
        "hostname"@ != "v"@,
        "hostname"@ != "src"@,
        "hostname"@ != "req_id"@,
        "hostname"@ != "req"@,
        "hostname"@ != "client_req"@,
        "hostname"@ != "res"@,
        "hostname"@ != "client_res"@,
        "hostname"@ != "err"@,
        "pid"@ != "component"@,
        "pid"@ != "level"@,
        "pid"@ != "msg"@,
        "pid"@ != "time"@,
        "pid"@ != "v"@,
        "pid"@ != "src"@,
        "pid"@ != "req_id"@,
        "pid"@ != "req"@,
        "pid"@ != "client_req"@,
        "pid"@ != "res"@,
        "pid"@ != "client_res"@,
        "pid"@ != "err"@,
        "component"@ != "level"@,
        "component"@ != "msg"@,
        "component"@ != "time"@,
        "component"@ != "v"@,
        "component"@ != "src"@,
        "component"@ != "req_id"@,
        "component"@ != "req"@,
        "component"@ != "client_req"@,
        "component"@ != "res"@,
        "component"@ != "client_res"@,
        "component"@ != "err"@,
        "level"@ != "msg"@,
        "level"@ != "time"@,
        "level"@ != "v"@,
        "level"@ != "src"@,
        "level"@ != "req_id"@,
        "level"@ != "req"@,
        "level"@ != "client_req"@,
        "level"@ != "res"@,
        "level"@ != "client_res"@,
        "level"@ != "err"@,
        "msg"@ != "time"@,
        "msg"@ != "v"@,
        "msg"@ != "src"@,
        "msg"@ != "req_id"@,
        "msg"@ != "req"@,
        "msg"@ != "client_req"@,
        "msg"@ != "res"@,
        "msg"@ != "client_res"@,
        "msg"@ != "err"@,
        "time"@ != "v"@,
        "time"@ != "src"@,
        "time"@ != "req_id"@,
        "time"@ != "req"@,
        "time"@ != "client_req"@,
        "time"@ != "res"@,
        "time"@ != "client_res"@,
        "time"@ != "err"@,
        "v"@ != "src"@,
        "v"@ != "req_id"@,
        "v"@ != "req"@,
        "v"@ != "client_req"@,
        "v"@ != "res"@,
        "v"@ != "client_res"@,
        "v"@ != "err"@,
        "src"@ != "req_id"@,
        "src"@ != "req"@,
        "src"@ != "client_req"@,
        "src"@ != "res"@,
        "src"@ != "client_res"@,
        "src"@ != "err"@,
        "req_id"@ != "req"@,
        "req_id"@ != "client_req"@,
        "req_id"@ != "res"@,
        "req_id"@ != "client_res"@,
        "req_id"@ != "err"@,
        "req"@ != "client_req"@,
        "req"@ != "res"@,
        "req"@ != "client_res"@,
        "req"@ != "err"@,
        "client_req"@ != "res"@,
        "client_req"@ != "client_res"@,
        "client_req"@ != "err"@,
        "res"@ != "client_res"@,
        "res"@ != "err"@,
        "client_res"@ != "err"@,
{
    reveal_strlit("name");
    reveal_strlit("hostname");
    reveal_strlit("pid");
    reveal_strlit("component");
    reveal_strlit("level");
    reveal_strlit("msg");
    reveal_strlit("time");
    reveal_strlit("v");
    reveal_strlit("src");
    reveal_strlit("req_id");
    reveal_strlit("req");
    reveal_strlit("client_req");
    reveal_strlit("res");
    reveal_strlit("client_res");
    reveal_strlit("err");
    assert("name"@ =~= seq!['n', 'a', 'm', 'e']);
    assert("hostname"@ =~= seq!['h', 'o', 's', 't', 'n', 'a', 'm', 'e']);
    assert("pid"@ =~= seq!['p', 'i', 'd']);
    assert("component"@ =~= seq!['c', 'o', 'm', 'p', 'o', 'n', 'e', 'n', 't']);
    assert("level"@ =~= seq!['l', 'e', 'v', 'e', 'l']);
    assert("msg"@ =~= seq!['m', 's', 'g']);
    assert("time"@ =~= seq!['t', 'i', 'm', 'e']);
    assert("v"@ =~= seq!['v']);
    assert("src"@ =~= seq!['s', 'r', 'c']);
    assert("req_id"@ =~= seq!['r', 'e', 'q', '_', 'i', 'd']);
    assert("req"@ =~= seq!['r', 'e', 'q']);
    assert("client_req"@ =~= seq!['c', 'l', 'i', 'e', 'n', 't', '_', 'r', 'e', 'q']);
    assert("res"@ =~= seq!['r', 'e', 's']);
    assert("client_res"@ =~= seq!['c', 'l', 'i', 'e', 'n', 't', '_', 'r', 'e', 's']);
    assert("err"@ =~= seq!['e', 'r', 'r']);
}

// ---------------------------------------------------------------------------
// Field validation helpers
// ---------------------------------------------------------------------------

fn check_str_field(entries: &Vec<(String, JsonValue)>, key: &str) -> (r: bool)
    ensures
        r == str_field_ok(entries@, key@),
{
    match crate::value::get(entries, key) {
        Some(v) => match v {
            JsonValue::Str(_) => true,
            _ => false,
        },
        None => false,
    }
}

fn check_opt_str_field(entries: &Vec<(String, JsonValue)>, key: &str) -> (r: bool)
    ensures
        r == opt_str_field_ok(entries@, key@),
{
    match crate::value::get(entries, key) {
        Some(v) => match v {
            JsonValue::Str(_) => true,
            _ => false,
        },
        None => true,
    }
}

fn check_opt_obj_field(entries: &Vec<(String, JsonValue)>, key: &str) -> (r: bool)
    ensures
        r == opt_obj_field_ok(entries@, key@),
{
    match crate::value::get(entries, key) {
        Some(v) => match v {
            JsonValue::Obj(_) => true,
            _ => false,
        },
        None => true,
    }
}

/// The numeric value of a required integer field, when the field is there,
/// is a JSON number, and its text is a plain numeral within the bound.
fn parse_num_field(entries: &Vec<(String, JsonValue)>, key: &str, bound: u64) -> (r: Option<u64>)
    ensures
        match r {
            Some(n) => num_field_ok(entries@, key@, bound as nat) && n as nat
                == crate::text::dec_val(lookup(entries@, key@)->Some_0->Num_0@),
            None => !num_field_ok(entries@, key@, bound as nat),
        },
{
    match crate::value::get(entries, key) {
        Some(v) => match v {
            JsonValue::Num(t) => crate::text::parse_u64_digits(t.as_str(), bound),
            _ => None,
        },
        None => None,
    }
}

// ---------------------------------------------------------------------------
// The decoder
// ---------------------------------------------------------------------------

impl BunyanLine {
    /// Decodes a parsed JSON value into a record. Succeeds exactly when
    /// the value is an object whose entries make a valid record; the
    /// error message names the first field that does not fit.
    #[verifier::rlimit(100)]
    #[verifier::spinoff_prover]
    pub fn from_json(v: JsonValue) -> (r: Result<BunyanLine, String>)
        ensures
            match r {
                Ok(rec) => v is Obj && valid_record(v->Obj_0@) && decoded(v->Obj_0@, rec),
                Err(m) => match v {
                    JsonValue::Obj(entries) => !valid_record(entries@) && m@ == decode_error_msg(
                        entries@,
                    ),
                    _ => m@ == "log line is not a JSON object"@,
                },
            },
    {
        let entries = match v {
            JsonValue::Obj(entries) => entries,
            _ => {
                return Err(String::from_str("log line is not a JSON object"));
            },
        };
        // Validate in a fixed order, so the reported field is deterministic.
        if !check_str_field(&entries, "name") {
            return Err(String::from_str("invalid or missing field: name"));
        }
        if !check_str_field(&entries, "hostname") {
            return Err(String::from_str("invalid or missing field: hostname"));
        }
        let pid = match parse_num_field(&entries, "pid", u64::MAX) {
            Some(n) => n,
            None => {
                return Err(String::from_str("invalid or missing field: pid"));
            },
        };
        let level_num = match parse_num_field(&entries, "level", 65535) {
            Some(n) => n as u16,
            None => {
                return Err(String::from_str("invalid or missing field: level"));
            },
        };
        if !check_str_field(&entries, "msg") {
            return Err(String::from_str("invalid or missing field: msg"));
        }
        if !check_str_field(&entries, "time") {
            return Err(String::from_str("invalid or missing field: time"));
        }
        let v_field: Option<u8> = match crate::value::get(&entries, "v") {
            Some(w) => match parse_num_field(&entries, "v", 255) {
                Some(n) => Some(n as u8),
                None => {
                    return Err(String::from_str("invalid field: v"));
                },
            },
            None => None,
        };
        if !check_opt_str_field(&entries, "component") {
            return Err(String::from_str("invalid field: component"));
        }
        if !check_opt_obj_field(&entries, "src") {
            return Err(String::from_str("invalid field: src"));
        }
        if !check_opt_obj_field(&entries, "req") {
            return Err(String::from_str("invalid field: req"));
        }
        if !check_opt_obj_field(&entries, "client_req") {
            return Err(String::from_str("invalid field: client_req"));
        }
        if !check_opt_obj_field(&entries, "res") {
            return Err(String::from_str("invalid field: res"));
        }
        if !check_opt_obj_field(&entries, "client_res") {
            return Err(String::from_str("invalid field: client_res"));
        }
        if !check_opt_obj_field(&entries, "err") {
            return Err(String::from_str("invalid field: err"));
        }
        let ghost orig = entries@;
        assert(valid_record(orig));

        // Move every entry to its place: the first occurrence of a known
        // key fills its field, later occurrences of it are dropped, and
        // everything else lands in the extra fields in order.
        let mut name_acc: Option<String> = None;
        let mut hostname_acc: Option<String> = None;
        let mut msg_acc: Option<String> = None;
        let mut time_acc: Option<String> = None;
        let mut component_acc: Option<String> = None;
        let mut src_acc: Option<Vec<(String, JsonValue)>> = None;
        let mut req_id_acc: Option<JsonValue> = None;
        let mut req_acc: Option<Vec<(String, JsonValue)>> = None;
        let mut client_req_acc: Option<Vec<(String, JsonValue)>> = None;
        let mut res_acc: Option<Vec<(String, JsonValue)>> = None;
        let mut client_res_acc: Option<Vec<(String, JsonValue)>> = None;
        let mut err_acc: Option<Vec<(String, JsonValue)>> = None;
        let mut other: Vec<(String, JsonValue)> = Vec::new();
        let mut rest = entries;
        let ghost mut prefix: Seq<(String, JsonValue)> = Seq::empty();
        proof {
            assert(prefix + rest@ =~= orig);
        }
        while rest.len() > 0
            invariant
                valid_record(orig),
                prefix + rest@ == orig,
                (match lookup(prefix, "name"@) {
                    Some(w) => w is Str ==> name_acc == Some(w->Str_0),
                    None => name_acc is None,
                }),
                (match lookup(prefix, "hostname"@) {
                    Some(w) => w is Str ==> hostname_acc == Some(w->Str_0),
                    None => hostname_acc is None,
                }),
                (match lookup(prefix, "msg"@) {
                    Some(w) => w is Str ==> msg_acc == Some(w->Str_0),
                    None => msg_acc is None,
                }),
                (match lookup(prefix, "time"@) {
                    Some(w) => w is Str ==> time_acc == Some(w->Str_0),
                    None => time_acc is None,
                }),
                (match lookup(prefix, "component"@) {
                    Some(w) => w is Str ==> component_acc == Some(w->Str_0),
                    None => component_acc is None,
                }),
                (match lookup(prefix, "src"@) {
                    Some(w) => w is Obj ==> src_acc == Some(w->Obj_0),
                    None => src_acc is None,
                }),
                req_id_acc == lookup(prefix, "req_id"@),
                (match lookup(prefix, "req"@) {
                    Some(w) => w is Obj ==> req_acc == Some(w->Obj_0),
                    None => req_acc is None,
                }),
                (match lookup(prefix, "client_req"@) {
                    Some(w) => w is Obj ==> client_req_acc == Some(w->Obj_0),
                    None => client_req_acc is None,
                }),
                (match lookup(prefix, "res"@) {
                    Some(w) => w is Obj ==> res_acc == Some(w->Obj_0),
                    None => res_acc is None,
                }),
                (match lookup(prefix, "client_res"@) {
                    Some(w) => w is Obj ==> client_res_acc == Some(w->Obj_0),
                    None => client_res_acc is None,
                }),
                (match lookup(prefix, "err"@) {
                    Some(w) => w is Obj ==> err_acc == Some(w->Obj_0),
                    None => err_acc is None,
                }),
                other@ == others_of(prefix),
            decreases rest@.len(),
        {
            let ghost old_rest = rest@;
            let e = rest.remove(0);
            let ghost old_prefix = prefix;
            proof {
                lemma_keys_distinct();
                prefix = prefix.push(e);
                assert(rest@ =~= old_rest.subrange(1, old_rest.len() as int));
                assert(old_prefix.push(e).drop_last() =~= old_prefix);
                assert(prefix + rest@ =~= orig);
                lemma_lookup_push(old_prefix, e, "name"@);
                lemma_lookup_push(old_prefix, e, "hostname"@);
                lemma_lookup_push(old_prefix, e, "msg"@);
                lemma_lookup_push(old_prefix, e, "time"@);
                lemma_lookup_push(old_prefix, e, "component"@);
                lemma_lookup_push(old_prefix, e, "src"@);
                lemma_lookup_push(old_prefix, e, "req_id"@);
                lemma_lookup_push(old_prefix, e, "req"@);
                lemma_lookup_push(old_prefix, e, "client_req"@);
                lemma_lookup_push(old_prefix, e, "res"@);
                lemma_lookup_push(old_prefix, e, "client_res"@);
                lemma_lookup_push(old_prefix, e, "err"@);
            }
            let (k, val) = e;
            if str_eq(k.as_str(), "name") {
                match val {
                    JsonValue::Str(s) => {
                        if name_acc.is_none() {
                            name_acc = Some(s);
                        }
                    },
                    _ => {},
                }
            } else if str_eq(k.as_str(), "hostname") {
                match val {
                    JsonValue::Str(s) => {
                        if hostname_acc.is_none() {
                            hostname_acc = Some(s);
                        }
                    },
                    _ => {},
                }
            } else if str_eq(k.as_str(), "msg") {
                match val {
                    JsonValue::Str(s) => {
                        if msg_acc.is_none() {
                            msg_acc = Some(s);
                        }
                    },
                    _ => {},
                }
            } else if str_eq(k.as_str(), "time") {
                match val {
                    JsonValue::Str(s) => {
                        if time_acc.is_none() {
                            time_acc = Some(s);
                        }
                    },
                    _ => {},
                }
            } else if str_eq(k.as_str(), "component") {
                match val {
                    JsonValue::Str(s) => {
                        if component_acc.is_none() {
                            component_acc = Some(s);
                        }
                    },
                    _ => {},
                }
            } else if str_eq(k.as_str(), "src") {
                match val {
                    JsonValue::Obj(m) => {
                        if src_acc.is_none() {
                            src_acc = Some(m);
                        }
                    },
                    _ => {},
                }
            } else if str_eq(k.as_str(), "req_id") {
                if req_id_acc.is_none() {
                    req_id_acc = Some(val);
                }
            } else if str_eq(k.as_str(), "req") {
                match val {
                    JsonValue::Obj(m) => {
                        if req_acc.is_none() {
                            req_acc = Some(m);
                        }
                    },
                    _ => {},
                }
            } else if str_eq(k.as_str(), "client_req") {
                match val {
                    JsonValue::Obj(m) => {
                        if client_req_acc.is_none() {
                            client_req_acc = Some(m);
                        }
                    },
                    _ => {},
                }
            } else if str_eq(k.as_str(), "res") {
                match val {
                    JsonValue::Obj(m) => {
                        if res_acc.is_none() {
                            res_acc = Some(m);
                        }
                    },
                    _ => {},
                }
            } else if str_eq(k.as_str(), "client_res") {
                match val {
                    JsonValue::Obj(m) => {
                        if client_res_acc.is_none() {
                            client_res_acc = Some(m);
                        }
                    },
                    _ => {},
                }
            } else if str_eq(k.as_str(), "err") {
                match val {
                    JsonValue::Obj(m) => {
                        if err_acc.is_none() {
                            err_acc = Some(m);
                        }
                    },
                    _ => {},
                }
            } else if known_key_exec(k.as_str()) {
                // pid, level and v were parsed above; their entries are
                // consumed here and render nowhere else.
            } else {
                other.push((k, val));
            }
        }
        proof {
            assert(prefix =~= orig);
        }
        let rec = BunyanLine {
            name: name_acc.unwrap(),
            hostname: hostname_acc.unwrap(),
            pid,
            component: component_acc,
            level: level_num,
            msg: msg_acc.unwrap(),
            time: time_acc.unwrap(),
            v: v_field,
            src: src_acc,
            req_id: req_id_acc,
            req: req_acc,
            client_req: client_req_acc,
            res: res_acc,
            client_res: client_res_acc,
            err: err_acc,
            other,
        };
        Ok(rec)
    }
}

} // verus!
