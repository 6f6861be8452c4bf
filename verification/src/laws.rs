//! Laws of the rendering engine, each proved once and for all: the bare
//! header shape, the divider policy, inline-parameter ordering, the
//! header-over-headers precedence, and status-line omission.

use vstd::prelude::*;
use crate::level::LogLevel;
use crate::record::BunyanLine;
use crate::value::{JsonValue, lookup, has_key};
use crate::text::{spaces, dec_str_of};
use crate::long::{long_format, inline_items, inline_params, req_id_items, other_items,
    join_sections, header_text, src_part};
use crate::res::{res_section_of, res_extras, status_line, numeric_status, is_res_extra};

verus! {

proof fn lemma_spaces_len(n: nat)
    ensures
        spaces(n).len() == n,
    decreases n,
{
    if n > 0 {
        lemma_spaces_len((n - 1) as nat);
    }
}

/// The padded level name is five columns wide, except that a longer name
/// keeps its own width with no padding at all.
pub proof fn lemma_padded_name_width(level: LogLevel)
    ensures
        level.spec_padded_name().len() == if level.spec_name().len() > 5 {
            level.spec_name().len()
        } else {
            5nat
        },
{
    if level.spec_name().len() <= 5 {
        lemma_spaces_len((5 - level.spec_name().len()) as nat);
    }
}

/// A record with no optional sub-objects and no extras renders in the
/// long format as exactly the one header line
/// `[<time>] <LEVEL padded to five>: <name>/<pid> on <hostname>: <msg>`,
/// with nothing after it.
pub proof fn lemma_long_header_only(rec: BunyanLine)
    requires
        rec.component is None,
        rec.src is None,
        rec.req_id is None,
        rec.req is None,
        rec.client_req is None,
        rec.res is None,
        rec.client_res is None,
        rec.err is None,
        rec.other@ == Seq::<(String, JsonValue)>::empty(),
    ensures
        long_format(&rec) == "["@ + rec.time@ + "] "@ + LogLevel::spec_from_u16(
            rec.level,
        ).spec_padded_name() + ": "@ + rec.name@ + "/"@ + dec_str_of(rec.pid as nat) + " on "@
            + rec.hostname@ + ": "@ + rec.msg@ + "\n"@,
{
    assert(inline_items(&rec) =~= Seq::<Seq<char>>::empty());
    assert(inline_params(&rec) == Seq::<char>::empty());
    let chunks = crate::long::section_chunks(&rec);
    assert(chunks =~= seq![
        Seq::<char>::empty(),
        Seq::<char>::empty(),
        Seq::<char>::empty(),
        Seq::<char>::empty(),
        Seq::<char>::empty(),
        Seq::<char>::empty(),
    ]);
    assert(join_sections(chunks) =~= Seq::<char>::empty()) by {
        lemma_join_all_empty(chunks);
    }
    assert(header_text(&rec) == "["@ + rec.time@ + "] "@ + LogLevel::spec_from_u16(
        rec.level,
    ).spec_padded_name() + ": "@ + rec.name@ + "/"@ + dec_str_of(rec.pid as nat) + " on "@
        + rec.hostname@ + ": "@ + rec.msg@);
    assert(long_format(&rec) =~= header_text(&rec) + "\n"@);
}

proof fn lemma_join_all_empty(chunks: Seq<Seq<char>>)
    requires
        forall|i: int| 0 <= i < chunks.len() ==> (#[trigger] chunks[i]).len() == 0,
    ensures
        join_sections(chunks).len() == 0,
    decreases chunks.len(),
{
    if chunks.len() > 0 {
        lemma_join_all_empty(chunks.subrange(1, chunks.len() as int));
    }
}

/// A section that renders no text triggers no divider: dropping an empty
/// chunk leaves the joined text unchanged.
pub proof fn lemma_empty_section_no_divider(chunks: Seq<Seq<char>>, i: int)
    requires
        0 <= i < chunks.len(),
        chunks[i].len() == 0,
    ensures
        join_sections(chunks) == join_sections(chunks.remove(i)),
    decreases chunks.len(),
{
    if i == 0 {
        assert(chunks.remove(0) =~= chunks.subrange(1, chunks.len() as int));
    } else {
        let rest = chunks.subrange(1, chunks.len() as int);
        lemma_empty_section_no_divider(rest, i - 1);
        assert(chunks.remove(i).subrange(1, chunks.remove(i).len() as int) =~= rest.remove(
            i - 1,
        ));
        assert(chunks.remove(i)[0] == chunks[0]);
    }
}

/// Two consecutive non-empty sections have exactly one divider between
/// them: a non-empty chunk is followed by the divider exactly when the
/// remaining chunks still render text.
pub proof fn lemma_one_divider_between_sections(chunks: Seq<Seq<char>>)
    requires
        chunks.len() > 0,
        chunks[0].len() > 0,
    ensures
        join_sections(chunks.subrange(1, chunks.len() as int)).len() > 0 ==> join_sections(
            chunks,
        ) == chunks[0] + spaces(4) + "--\n"@ + join_sections(
            chunks.subrange(1, chunks.len() as int),
        ),
        join_sections(chunks.subrange(1, chunks.len() as int)).len() == 0 ==> join_sections(
            chunks,
        ) == chunks[0],
{
}

/// Inline parameters are deterministic and keep insertion order: the
/// items of concatenated extras are the concatenated items.
pub proof fn lemma_inline_order(a: Seq<(String, JsonValue)>, b: Seq<(String, JsonValue)>)
    ensures
        other_items(a + b, (a + b).len() as int) == other_items(a, a.len() as int) + other_items(
            b,
            b.len() as int,
        ),
    decreases b.len(),
{
    if b.len() == 0 {
        assert(a + b =~= a);
        assert(other_items(b, 0) =~= Seq::<Seq<char>>::empty());
        assert(other_items(a, a.len() as int) + other_items(b, b.len() as int) =~= other_items(
            a,
            a.len() as int,
        ));
    } else {
        let b0 = b.drop_last();
        lemma_inline_order(a, b0);
        assert(a + b0 =~= (a + b).subrange(0, a.len() + b.len() - 1));
        assert(forall|i: int| 0 <= i < a.len() + b.len() - 1 ==> (a + b0)[i] == (a + b)[i]);
        lemma_other_items_prefix(a + b, a + b0, a.len() + b.len() - 1);
        assert((a + b)[a.len() + b.len() - 1] == b.last());
        lemma_other_items_prefix(b, b0, b.len() - 1);
        assert(other_items(a + b, a.len() + b.len() - 1) == other_items(a, a.len() as int)
            + other_items(b0, b0.len() as int));
        assert(other_items(b, b.len() as int) == other_items(b, b.len() - 1) + (if crate::long::inline_eligible(b.last().1) {
            seq![crate::long::other_item(b.last().0@, b.last().1)]
        } else {
            Seq::<Seq<char>>::empty()
        }));
        assert(other_items(a + b, (a + b).len() as int) =~= other_items(a, a.len() as int)
            + other_items(b, b.len() as int));
    }
}

proof fn lemma_other_items_prefix(s: Seq<(String, JsonValue)>, t: Seq<(String, JsonValue)>, n: int)
    requires
        0 <= n <= s.len(),
        n <= t.len(),
        forall|i: int| 0 <= i < n ==> s[i] == t[i],
    ensures
        other_items(s, n) == other_items(t, n),
    decreases n,
{
    if n > 0 {
        lemma_other_items_prefix(s, t, n - 1);
    }
}

/// The `req_id` item always comes first when it is present.
pub proof fn lemma_req_id_first(rec: BunyanLine)
    requires
        rec.req_id matches Some(v) && v is Str,
    ensures
        inline_items(&rec).len() > 0,
        inline_items(&rec)[0] == "req_id="@ + rec.req_id->0->Str_0@,
{
    assert(req_id_items(rec.req_id).len() == 1);
}

/// The entry list with the value of every entry at `key` replaced.
pub open spec fn with_value_at(
    e: Seq<(String, JsonValue)>,
    key: Seq<char>,
    w: JsonValue,
) -> Seq<(String, JsonValue)> {
    Seq::new(
        e.len(),
        |i: int|
            if e[i].0@ == key {
                (e[i].0, w)
            } else {
                e[i]
            },
    )
}

proof fn lemma_lookup_with_value_at(
    e: Seq<(String, JsonValue)>,
    key: Seq<char>,
    w: JsonValue,
    probe: Seq<char>,
)
    ensures
        probe != key ==> lookup(with_value_at(e, key, w), probe) == lookup(e, probe),
        probe == key ==> lookup(with_value_at(e, key, w), probe) == (if has_key(e, key) {
            Some(w)
        } else {
            None::<JsonValue>
        }),
    decreases e.len(),
{
    let e2 = with_value_at(e, key, w);
    if e.len() > 0 {
        lemma_lookup_with_value_at(e.subrange(1, e.len() as int), key, w, probe);
        assert(e2.subrange(1, e2.len() as int) =~= with_value_at(
            e.subrange(1, e.len() as int),
            key,
            w,
        ));
        assert(e2[0].0 == e[0].0);
    }
}

/// When both `header` and `headers` are present, only `header`'s content
/// is rendered: changing every `headers` value leaves the response
/// section untouched.
pub proof fn lemma_headers_discarded(e: Seq<(String, JsonValue)>, w: JsonValue)
    requires
        has_key(e, "header"@),
    ensures
        res_section_of(with_value_at(e, "headers"@, w)) == res_section_of(e),
{
    let e2 = with_value_at(e, "headers"@, w);
    proof_keys_distinct_res();
    lemma_lookup_with_value_at(e, "headers"@, w, "header"@);
    lemma_lookup_with_value_at(e, "headers"@, w, "statusCode"@);
    lemma_lookup_with_value_at(e, "headers"@, w, "body"@);
    assert(lookup(e2, "header"@) == lookup(e, "header"@));
    assert(has_key(e2, "header"@));
    lemma_res_extras_same(e, e2, e.len() as int, w);
    assert(res_section_of(e2) =~= res_section_of(e));
}

proof fn lemma_res_extras_same(
    e: Seq<(String, JsonValue)>,
    e2: Seq<(String, JsonValue)>,
    n: int,
    w: JsonValue,
)
    requires
        e2 == with_value_at(e, "headers"@, w),
        0 <= n <= e.len(),
    ensures
        res_extras(e2, n) == res_extras(e, n),
    decreases n,
{
    if n > 0 {
        lemma_res_extras_same(e, e2, n - 1, w);
        assert(e2[n - 1].0 == e[n - 1].0);
        if e[n - 1].0@ == "headers"@ {
            assert(is_res_extra(e[n - 1].0@));
        } else {
            assert(e2[n - 1] == e[n - 1]);
        }
    }
}

proof fn proof_keys_distinct_res()
    ensures
        "header"@ != "headers"@,
        "statusCode"@ != "headers"@,
        "body"@ != "headers"@,
{
    reveal_strlit("header");
    reveal_strlit("headers");
    reveal_strlit("statusCode");
    reveal_strlit("body");
    assert("header"@ =~= seq!['h', 'e', 'a', 'd', 'e', 'r']);
    assert("headers"@ =~= seq!['h', 'e', 'a', 'd', 'e', 'r', 's']);
    assert("statusCode"@.len() == 10);
    assert("body"@.len() == 4);
}

/// The status line is omitted when the status code is a number beyond
/// sixteen bits, or a string that does not parse as an unsigned
/// sixteen-bit integer.
pub proof fn lemma_status_line_omitted(code: JsonValue, ver: Option<Seq<char>>)
    requires
        match code {
            JsonValue::Num(t) => crate::text::parse_dec_bounded(t@, u64::MAX as nat) matches Some(
                n,
            ) && n > 65535,
            JsonValue::Str(s) => crate::text::parse_unsigned_str(s@, u16::MAX as nat) is None,
            _ => true,
        },
    ensures
        status_line(Some(code), ver) == Seq::<char>::empty(),
{
    assert(numeric_status(Some(code)) is None);
}

} // verus!
