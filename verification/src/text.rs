//! Character-level text utilities: indentation, decimal numerals, digit
//! parsing, whitespace, line splitting and substring predicates.

use vstd::prelude::*;
use vstd::string::*;

verus! {

// ---------------------------------------------------------------------------
// Spaces and indentation
// ---------------------------------------------------------------------------

/// A run of `n` space characters.
pub open spec fn spaces(n: nat) -> Seq<char>
    decreases n,
{
    if n == 0 {
        Seq::<char>::empty()
    } else {
        spaces((n - 1) as nat).push(' ')
    }
}

pub fn push_spaces(out: &mut String, n: usize)
    ensures
        final(out)@ == old(out)@ + spaces(n as nat),
{
    let mut i: usize = 0;
    while i < n
        invariant
            i <= n,
            out@ == old(out)@ + spaces(i as nat),
        decreases n - i,
    {
        out.append(" ");
        proof {
            reveal_strlit(" ");
            assert(out@ =~= old(out)@ + spaces((i + 1) as nat));
        }
        i = i + 1;
    }
}

// ---------------------------------------------------------------------------
// Decimal numerals
// ---------------------------------------------------------------------------

/// The decimal digit character for a value below ten.
pub open spec fn dec_digit(d: nat) -> char {
    if d == 0 { '0' }
    else if d == 1 { '1' }
    else if d == 2 { '2' }
    else if d == 3 { '3' }
    else if d == 4 { '4' }
    else if d == 5 { '5' }
    else if d == 6 { '6' }
    else if d == 7 { '7' }
    else if d == 8 { '8' }
    else { '9' }
}

/// The decimal numeral of `n`, without sign or leading zeros.
pub open spec fn dec_str_of(n: nat) -> Seq<char>
    decreases n,
{
    if n < 10 {
        seq![dec_digit(n)]
    } else {
        dec_str_of(n / 10).push(dec_digit(n % 10))
    }
}

fn digit_str(d: u64) -> (s: &'static str)
    requires
        d < 10,
    ensures
        s@ == seq![dec_digit(d as nat)],
{
    proof {
        reveal_strlit("0");
        reveal_strlit("1");
        reveal_strlit("2");
        reveal_strlit("3");
        reveal_strlit("4");
        reveal_strlit("5");
        reveal_strlit("6");
        reveal_strlit("7");
        reveal_strlit("8");
        reveal_strlit("9");
    }
    match d {
        0u64 => "0",
        1u64 => "1",
        2u64 => "2",
        3u64 => "3",
        4u64 => "4",
        5u64 => "5",
        6u64 => "6",
        7u64 => "7",
        8u64 => "8",
        _ => "9",
    }
}

pub fn push_dec_u64(out: &mut String, n: u64)
    ensures
        final(out)@ == old(out)@ + dec_str_of(n as nat),
    decreases n,
{
    if n < 10 {
        out.append(digit_str(n));
    } else {
        push_dec_u64(out, n / 10);
        out.append(digit_str(n % 10));
        proof {
            assert(out@ =~= old(out)@ + dec_str_of(n as nat));
        }
    }
}

pub fn dec_u64(n: u64) -> (s: String)
    ensures
        s@ == dec_str_of(n as nat),
{
    let mut out = String::new();
    push_dec_u64(&mut out, n);
    proof {
        assert(out@ =~= dec_str_of(n as nat));
    }
    out
}

// ---------------------------------------------------------------------------
// Digit parsing
// ---------------------------------------------------------------------------

pub open spec fn is_dec_digit(c: char) -> bool {
    '0' <= c && c <= '9'
}

pub open spec fn digit_val(c: char) -> nat {
    (c as nat - '0' as nat) as nat
}

pub open spec fn all_dec_digits(s: Seq<char>) -> bool {
    forall|i: int| 0 <= i < s.len() ==> is_dec_digit(#[trigger] s[i])
}

/// The value of a digit string read left to right.
pub open spec fn dec_val(s: Seq<char>) -> nat
    decreases s.len(),
{
    if s.len() == 0 {
        0
    } else {
        dec_val(s.drop_last()) * 10 + digit_val(s.last())
    }
}

proof fn lemma_dec_val_monotone(s: Seq<char>, i: int)
    requires
        0 <= i <= s.len(),
    ensures
        dec_val(s.subrange(0, i)) <= dec_val(s),
    decreases s.len() - i,
{
    if i < s.len() {
        lemma_dec_val_monotone(s, i + 1);
        assert(s.subrange(0, i + 1).drop_last() =~= s.subrange(0, i));
        assert(dec_val(s.subrange(0, i + 1)) == dec_val(s.subrange(0, i)) * 10 + digit_val(
            s.subrange(0, i + 1).last(),
        ));
    } else {
        assert(s.subrange(0, i) =~= s);
    }
}

/// The value denoted by a non-empty, all-digit string, when it fits the
/// given bound; `None` otherwise.
pub open spec fn parse_dec_bounded(s: Seq<char>, bound: nat) -> Option<nat> {
    if s.len() > 0 && all_dec_digits(s) && dec_val(s) <= bound {
        Some(dec_val(s))
    } else {
        None
    }
}

/// Parses an unsigned decimal numeral no larger than `bound`.
pub fn parse_u64_digits(s: &str, bound: u64) -> (r: Option<u64>)
    ensures
        match r {
            Some(v) => parse_dec_bounded(s@, bound as nat) == Some(v as nat),
            None => parse_dec_bounded(s@, bound as nat) is None,
        },
{
    let n = s.unicode_len();
    if n == 0 {
        return None;
    }
    let mut acc: u64 = 0;
    let mut i: usize = 0;
    while i < n
        invariant
            0 < n == s@.len(),
            i <= n,
            all_dec_digits(s@.subrange(0, i as int)),
            acc as nat == dec_val(s@.subrange(0, i as int)),
            acc <= bound,
        decreases n - i,
    {
        let c = s.get_char(i);
        let ghost pre = s@.subrange(0, i as int);
        let ghost cur = s@.subrange(0, i + 1);
        proof {
            assert(cur.drop_last() =~= pre);
        }
        let d: u64 = match c {
            '0' => 0,
            '1' => 1,
            '2' => 2,
            '3' => 3,
            '4' => 4,
            '5' => 5,
            '6' => 6,
            '7' => 7,
            '8' => 8,
            '9' => 9,
            _ => {
                return None;
            },
        };
        assert(d as nat == digit_val(c));
        if acc > bound / 10 || (acc == bound / 10 && d > bound % 10) {
            proof {
                assert(dec_val(cur) == acc * 10 + d);
                assert(dec_val(cur) > bound) by (nonlinear_arith)
                    requires
                        dec_val(cur) == acc * 10 + d as nat,
                        acc > bound / 10 || (acc == bound / 10 && d as nat > bound % 10),
                        bound == (bound / 10) * 10 + bound % 10,
                        bound % 10 < 10,
                        d < 10,
                ;
                lemma_dec_val_monotone(s@, i + 1);
            }
            return None;
        }
        proof {
            assert(acc * 10 + d <= bound) by (nonlinear_arith)
                requires
                    acc <= bound / 10,
                    acc < bound / 10 || d as nat <= bound % 10,
                    bound == (bound / 10) * 10 + bound % 10,
                    d < 10,
            ;
        }
        acc = acc * 10 + d;
        i = i + 1;
    }
    proof {
        assert(s@.subrange(0, n as int) =~= s@);
    }
    Some(acc)
}

/// How Rust's unsigned-integer parser reads a string: an optional leading
/// `+`, then one or more digits, the value fitting the bound.
pub open spec fn parse_unsigned_str(s: Seq<char>, bound: nat) -> Option<nat> {
    if s.len() >= 1 && s[0] == '+' {
        parse_dec_bounded(s.subrange(1, s.len() as int), bound)
    } else {
        parse_dec_bounded(s, bound)
    }
}

/// Parses a numeral as `str::parse::<u16>` does: optional `+`, digits,
/// value at most sixteen bits.
pub fn parse_u16_str(s: &str) -> (r: Option<u16>)
    ensures
        match r {
            Some(v) => parse_unsigned_str(s@, u16::MAX as nat) == Some(v as nat),
            None => parse_unsigned_str(s@, u16::MAX as nat) is None,
        },
{
    let n = s.unicode_len();
    let body = if n >= 1 && s.get_char(0) == '+' {
        let b = s.substring_char(1, n);
        proof {
            assert(b@ =~= s@.subrange(1, s@.len() as int));
        }
        b
    } else {
        s
    };
    match parse_u64_digits(body, 65535) {
        Some(v) => Some(v as u16),
        None => None,
    }
}

// ---------------------------------------------------------------------------
// JSON string escaping
// ---------------------------------------------------------------------------

/// The lower-case hexadecimal digit character for a value below sixteen.
pub open spec fn hex_digit(d: nat) -> char {
    if d == 0 { '0' }
    else if d == 1 { '1' }
    else if d == 2 { '2' }
    else if d == 3 { '3' }
    else if d == 4 { '4' }
    else if d == 5 { '5' }
    else if d == 6 { '6' }
    else if d == 7 { '7' }
    else if d == 8 { '8' }
    else if d == 9 { '9' }
    else if d == 10 { 'a' }
    else if d == 11 { 'b' }
    else if d == 12 { 'c' }
    else if d == 13 { 'd' }
    else if d == 14 { 'e' }
    else { 'f' }
}

fn hex_str(d: u32) -> (s: &'static str)
    requires
        d < 16,
    ensures
        s@ == seq![hex_digit(d as nat)],
{
    proof {
        reveal_strlit("0");
        reveal_strlit("1");
        reveal_strlit("2");
        reveal_strlit("3");
        reveal_strlit("4");
        reveal_strlit("5");
        reveal_strlit("6");
        reveal_strlit("7");
        reveal_strlit("8");
        reveal_strlit("9");
        reveal_strlit("a");
        reveal_strlit("b");
        reveal_strlit("c");
        reveal_strlit("d");
        reveal_strlit("e");
        reveal_strlit("f");
    }
    match d {
        0u32 => "0",
        1u32 => "1",
        2u32 => "2",
        3u32 => "3",
        4u32 => "4",
        5u32 => "5",
        6u32 => "6",
        7u32 => "7",
        8u32 => "8",
        9u32 => "9",
        10u32 => "a",
        11u32 => "b",
        12u32 => "c",
        13u32 => "d",
        14u32 => "e",
        _ => "f",
    }
}

/// How one character appears inside a JSON string literal: the named
/// escapes for quote, backslash and the usual control characters, a
/// `\u00..` escape for the other control characters, and the character
/// itself for everything else.
pub open spec fn escape_char(c: char) -> Seq<char> {
    if c == '"' {
        "\\\""@
    } else if c == '\\' {
        "\\\\"@
    } else if c == '\u{8}' {
        "\\b"@
    } else if c == '\u{c}' {
        "\\f"@
    } else if c == '\n' {
        "\\n"@
    } else if c == '\r' {
        "\\r"@
    } else if c == '\t' {
        "\\t"@
    } else if (c as u32) < 0x20 {
        "\\u00"@ + seq![hex_digit((c as u32 / 16) as nat), hex_digit((c as u32 % 16) as nat)]
    } else {
        seq![c]
    }
}

/// A whole string escaped for a JSON string literal.
pub open spec fn escape_seq(s: Seq<char>) -> Seq<char>
    decreases s.len(),
{
    if s.len() == 0 {
        Seq::<char>::empty()
    } else {
        escape_seq(s.drop_last()) + escape_char(s.last())
    }
}

pub fn push_escaped(out: &mut String, s: &str)
    ensures
        final(out)@ == old(out)@ + escape_seq(s@),
{
    let n = s.unicode_len();
    let mut i: usize = 0;
    proof {
        assert(out@ =~= old(out)@ + escape_seq(s@.subrange(0, 0)));
    }
    while i < n
        invariant
            n == s@.len(),
            0 <= i <= n,
            out@ == old(out)@ + escape_seq(s@.subrange(0, i as int)),
        decreases n - i,
    {
        let c = s.get_char(i);
        let ghost pre = s@.subrange(0, i as int);
        let ghost cur = s@.subrange(0, i + 1);
        proof {
            assert(cur.drop_last() =~= pre);
            assert(cur.last() == c);
        }
        if c == '"' {
            out.append("\\\"");
        } else if c == '\\' {
            out.append("\\\\");
        } else if c == '\u{8}' {
            out.append("\\b");
        } else if c == '\u{c}' {
            out.append("\\f");
        } else if c == '\n' {
            out.append("\\n");
        } else if c == '\r' {
            out.append("\\r");
        } else if c == '\t' {
            out.append("\\t");
        } else if (c as u32) < 0x20 {
            out.append("\\u00");
            out.append(hex_str((c as u32) / 16));
            out.append(hex_str((c as u32) % 16));
            proof {
                assert(out@ =~= old(out)@ + escape_seq(cur));
            }
        } else {
            let piece = s.substring_char(i, i + 1);
            out.append(piece);
            proof {
                assert(piece@ =~= seq![c]);
            }
        }
        proof {
            assert(out@ =~= old(out)@ + escape_seq(cur));
        }
        i = i + 1;
    }
    proof {
        assert(s@.subrange(0, n as int) =~= s@);
    }
}

// ---------------------------------------------------------------------------
// Whitespace
// ---------------------------------------------------------------------------

/// The Unicode `White_Space` set, as `char::is_whitespace` recognizes it.
pub open spec fn is_white_space(c: char) -> bool {
    c == ' ' || c == '\t' || c == '\n' || c == '\r' || c == '\u{000B}' || c == '\u{000C}' || c
        == '\u{0085}' || c == '\u{00A0}' || c == '\u{1680}' || ('\u{2000}' <= c && c
        <= '\u{200A}') || c == '\u{2028}' || c == '\u{2029}' || c == '\u{202F}' || c == '\u{205F}'
        || c == '\u{3000}'
}

pub fn white_space_char(c: char) -> (r: bool)
    ensures
        r == is_white_space(c),
{
    c == ' ' || c == '\t' || c == '\n' || c == '\r' || c == '\u{000B}' || c == '\u{000C}' || c
        == '\u{0085}' || c == '\u{00A0}' || c == '\u{1680}' || ('\u{2000}' <= c && c
        <= '\u{200A}') || c == '\u{2028}' || c == '\u{2029}' || c == '\u{202F}' || c == '\u{205F}'
        || c == '\u{3000}'
}

/// How many leading whitespace characters `s` carries.
pub open spec fn leading_ws(s: Seq<char>) -> int
    decreases s.len(),
{
    if s.len() == 0 || !is_white_space(s[0]) {
        0
    } else {
        1 + leading_ws(s.subrange(1, s.len() as int))
    }
}

proof fn lemma_leading_ws_bounds(s: Seq<char>)
    ensures
        0 <= leading_ws(s) <= s.len(),
        forall|i: int| 0 <= i < leading_ws(s) ==> is_white_space(#[trigger] s[i]),
        leading_ws(s) < s.len() ==> !is_white_space(s[leading_ws(s)]),
    decreases s.len(),
{
    if s.len() > 0 && is_white_space(s[0]) {
        let t = s.subrange(1, s.len() as int);
        lemma_leading_ws_bounds(t);
        assert forall|i: int| 0 <= i < leading_ws(s) implies is_white_space(#[trigger] s[i]) by {
            if i > 0 {
                assert(t[i - 1] == s[i]);
            }
        }
        assert(leading_ws(s) < s.len() ==> s[leading_ws(s)] == t[leading_ws(t)]);
    }
}

/// `s` with leading whitespace removed.
pub open spec fn trim_start_spec(s: Seq<char>) -> Seq<char> {
    s.subrange(leading_ws(s), s.len() as int)
}

pub fn trim_start(s: &str) -> (r: String)
    ensures
        r@ == trim_start_spec(s@),
{
    let n = s.unicode_len();
    let mut i: usize = 0;
    proof {
        lemma_leading_ws_bounds(s@);
    }
    while i < n && white_space_char(s.get_char(i))
        invariant
            n == s@.len(),
            0 <= i <= n,
            forall|j: int| 0 <= j < i ==> is_white_space(#[trigger] s@[j]),
            i <= leading_ws(s@),
        decreases n - i,
    {
        proof {
            lemma_leading_ws_bounds(s@);
            assert(i < leading_ws(s@) || leading_ws(s@) == i);
            if leading_ws(s@) == i as int {
                assert(false);
            }
        }
        i = i + 1;
    }
    proof {
        lemma_leading_ws_bounds(s@);
        if i < n {
            assert(i as int == leading_ws(s@));
        } else {
            assert(i as int == leading_ws(s@));
        }
    }
    let rest = s.substring_char(i, n);
    String::from_str(rest)
}

/// Whether `s` holds nothing but whitespace.
pub open spec fn is_blank(s: Seq<char>) -> bool {
    forall|i: int| 0 <= i < s.len() ==> is_white_space(#[trigger] s[i])
}

pub fn blank(s: &str) -> (r: bool)
    ensures
        r == is_blank(s@),
{
    let n = s.unicode_len();
    let mut i: usize = 0;
    while i < n
        invariant
            n == s@.len(),
            0 <= i <= n,
            forall|j: int| 0 <= j < i ==> is_white_space(#[trigger] s@[j]),
        decreases n - i,
    {
        if !white_space_char(s.get_char(i)) {
            return false;
        }
        i = i + 1;
    }
    true
}

// ---------------------------------------------------------------------------
// Substring predicates
// ---------------------------------------------------------------------------

pub fn contains_char(s: &str, c: char) -> (r: bool)
    ensures
        r == s@.contains(c),
{
    let n = s.unicode_len();
    let mut i: usize = 0;
    while i < n
        invariant
            n == s@.len(),
            0 <= i <= n,
            forall|j: int| 0 <= j < i ==> s@[j] != c,
        decreases n - i,
    {
        if s.get_char(i) == c {
            assert(s@.contains(c));
            return true;
        }
        i = i + 1;
    }
    assert(!s@.contains(c));
    false
}

/// Whether `pat` occurs in `s` starting at position `at`.
pub open spec fn matches_at(s: Seq<char>, at: int, pat: Seq<char>) -> bool {
    0 <= at && at + pat.len() <= s.len() && s.subrange(at, at + pat.len()) == pat
}

pub fn starts_with(s: &str, pat: &str) -> (r: bool)
    ensures
        r == matches_at(s@, 0, pat@),
{
    let n = s.unicode_len();
    let m = pat.unicode_len();
    if m > n {
        return false;
    }
    let mut i: usize = 0;
    while i < m
        invariant
            n == s@.len(),
            m == pat@.len(),
            m <= n,
            0 <= i <= m,
            forall|j: int| 0 <= j < i ==> s@[j] == pat@[j],
        decreases m - i,
    {
        if s.get_char(i) != pat.get_char(i) {
            assert(s@.subrange(0, m as int)[i as int] != pat@[i as int]);
            return false;
        }
        i = i + 1;
    }
    proof {
        assert(s@.subrange(0, m as int) =~= pat@);
    }
    true
}

pub fn str_eq(a: &str, b: &str) -> (r: bool)
    ensures
        r == (a@ == b@),
{
    let n = a.unicode_len();
    if n != b.unicode_len() {
        return false;
    }
    let mut i: usize = 0;
    while i < n
        invariant
            n == a@.len() == b@.len(),
            0 <= i <= n,
            forall|j: int| 0 <= j < i ==> a@[j] == b@[j],
        decreases n - i,
    {
        if a.get_char(i) != b.get_char(i) {
            return false;
        }
        i = i + 1;
    }
    proof {
        assert(a@ =~= b@);
    }
    true
}

// ---------------------------------------------------------------------------
// ASCII case folding
// ---------------------------------------------------------------------------

/// The ASCII upper-case counterpart of a character; everything but the
/// twenty-six lower-case letters is left as it is.
pub open spec fn upper_char(c: char) -> char {
    match c {
        'a' => 'A',
        'b' => 'B',
        'c' => 'C',
        'd' => 'D',
        'e' => 'E',
        'f' => 'F',
        'g' => 'G',
        'h' => 'H',
        'i' => 'I',
        'j' => 'J',
        'k' => 'K',
        'l' => 'L',
        'm' => 'M',
        'n' => 'N',
        'o' => 'O',
        'p' => 'P',
        'q' => 'Q',
        'r' => 'R',
        's' => 'S',
        't' => 'T',
        'u' => 'U',
        'v' => 'V',
        'w' => 'W',
        'x' => 'X',
        'y' => 'Y',
        'z' => 'Z',
        _ => c,
    }
}

pub fn to_upper_char(c: char) -> (r: char)
    ensures
        r == upper_char(c),
{
    match c {
        'a' => 'A',
        'b' => 'B',
        'c' => 'C',
        'd' => 'D',
        'e' => 'E',
        'f' => 'F',
        'g' => 'G',
        'h' => 'H',
        'i' => 'I',
        'j' => 'J',
        'k' => 'K',
        'l' => 'L',
        'm' => 'M',
        'n' => 'N',
        'o' => 'O',
        'p' => 'P',
        'q' => 'Q',
        'r' => 'R',
        's' => 'S',
        't' => 'T',
        'u' => 'U',
        'v' => 'V',
        'w' => 'W',
        'x' => 'X',
        'y' => 'Y',
        'z' => 'Z',
        _ => c,
    }
}

/// ASCII-case-insensitive equality of two character sequences.
pub open spec fn eq_ignore_case(a: Seq<char>, b: Seq<char>) -> bool {
    a.len() == b.len() && forall|i: int|
        0 <= i < a.len() ==> upper_char(#[trigger] a[i]) == upper_char(b[i])
}

pub fn str_eq_ignore_case(a: &str, b: &str) -> (r: bool)
    ensures
        r == eq_ignore_case(a@, b@),
{
    let n = a.unicode_len();
    if n != b.unicode_len() {
        return false;
    }
    let mut i: usize = 0;
    while i < n
        invariant
            n == a@.len() == b@.len(),
            0 <= i <= n,
            forall|j: int| 0 <= j < i ==> upper_char(#[trigger] a@[j]) == upper_char(b@[j]),
        decreases n - i,
    {
        if to_upper_char(a.get_char(i)) != to_upper_char(b.get_char(i)) {
            return false;
        }
        i = i + 1;
    }
    true
}

// ---------------------------------------------------------------------------
// Character and substring search
// ---------------------------------------------------------------------------

/// The index of the first occurrence of `c` in `s`, or the length of `s`
/// when there is none.
pub open spec fn find_char(s: Seq<char>, c: char) -> int
    decreases s.len(),
{
    if s.len() == 0 {
        0
    } else if s[0] == c {
        0
    } else {
        1 + find_char(s.subrange(1, s.len() as int), c)
    }
}

pub proof fn lemma_find_char(s: Seq<char>, c: char)
    ensures
        0 <= find_char(s, c) <= s.len(),
        forall|i: int| 0 <= i < find_char(s, c) ==> #[trigger] s[i] != c,
        find_char(s, c) < s.len() ==> s[find_char(s, c)] == c,
    decreases s.len(),
{
    if s.len() > 0 && s[0] != c {
        let t = s.subrange(1, s.len() as int);
        lemma_find_char(t, c);
        assert forall|i: int| 0 <= i < find_char(s, c) implies #[trigger] s[i] != c by {
            if i > 0 {
                assert(t[i - 1] == s[i]);
            }
        }
        assert(find_char(s, c) < s.len() ==> s[find_char(s, c)] == t[find_char(t, c)]);
    }
}

fn scan_char(s: &str, from: usize, c: char) -> (r: usize)
    requires
        from <= s@.len(),
    ensures
        r as int == from + find_char(s@.subrange(from as int, s@.len() as int), c),
        from <= r <= s@.len(),
{
    let ghost tail = s@.subrange(from as int, s@.len() as int);
    proof {
        lemma_find_char(tail, c);
    }
    let n = s.unicode_len();
    let mut i: usize = from;
    while i < n
        invariant
            n == s@.len(),
            from <= i <= n,
            tail == s@.subrange(from as int, s@.len() as int),
            forall|j: int| 0 <= j < i - from ==> #[trigger] tail[j] != c,
            i - from <= find_char(tail, c),
        decreases n - i,
    {
        proof {
            lemma_find_char(tail, c);
        }
        if s.get_char(i) == c {
            proof {
                assert(tail[i - from] == c);
                assert(i - from == find_char(tail, c));
            }
            return i;
        }
        proof {
            assert(tail[i - from] != c);
            if find_char(tail, c) == i - from {
                assert(false);
            }
        }
        i = i + 1;
    }
    proof {
        lemma_find_char(tail, c);
        assert(i - from == find_char(tail, c));
    }
    i
}

/// The index of the first occurrence of `pat` in `s`, or `-1` when there
/// is none.
pub open spec fn find_sub(s: Seq<char>, pat: Seq<char>) -> int
    decreases s.len(),
{
    if s.len() < pat.len() {
        -1
    } else if s.subrange(0, pat.len() as int) == pat {
        0
    } else if s.len() == pat.len() {
        -1
    } else {
        let r = find_sub(s.subrange(1, s.len() as int), pat);
        if r == -1 {
            -1
        } else {
            1 + r
        }
    }
}

pub proof fn lemma_find_sub(s: Seq<char>, pat: Seq<char>)
    ensures
        find_sub(s, pat) == -1 ==> forall|i: int| !matches_at(s, i, pat),
        find_sub(s, pat) != -1 ==> matches_at(s, find_sub(s, pat), pat) && forall|j: int|
            0 <= j < find_sub(s, pat) ==> !matches_at(s, j, pat),
    decreases s.len(),
{
    let r = find_sub(s, pat);
    if s.len() < pat.len() {
        assert(forall|i: int| !matches_at(s, i, pat));
    } else if s.subrange(0, pat.len() as int) == pat {
        assert(matches_at(s, 0, pat));
    } else if s.len() == pat.len() {
        assert(forall|i: int| 1 <= i ==> !matches_at(s, i, pat));
        assert(!matches_at(s, 0, pat));
    } else {
        let t = s.subrange(1, s.len() as int);
        lemma_find_sub(t, pat);
        assert(forall|i: int|
            1 <= i && i + pat.len() <= s.len() ==> (#[trigger] s.subrange(i, i + pat.len() as int))
                =~= t.subrange(i - 1, i - 1 + pat.len() as int));
        assert(forall|i: int| 1 <= i ==> matches_at(s, i, pat) == matches_at(t, i - 1, pat));
    }
}

pub fn find_sub_str(s: &str, pat: &str) -> (r: Option<usize>)
    ensures
        match r {
            Some(i) => i as int == find_sub(s@, pat@),
            None => find_sub(s@, pat@) == -1,
        },
{
    let n = s.unicode_len();
    let m = pat.unicode_len();
    proof {
        lemma_find_sub(s@, pat@);
    }
    if m > n {
        return None;
    }
    let mut i: usize = 0;
    while i <= n - m
        invariant
            n == s@.len(),
            m == pat@.len(),
            m <= n,
            0 <= i <= n - m + 1,
            forall|j: int| 0 <= j < i ==> !matches_at(s@, j, pat@),
        decreases n - m + 1 - i,
    {
        let piece = s.substring_char(i, i + m);
        if str_eq(piece, pat) {
            proof {
                assert(matches_at(s@, i as int, pat@));
                lemma_find_sub(s@, pat@);
                if find_sub(s@, pat@) == -1 {
                    assert(false);
                }
                assert(i as int == find_sub(s@, pat@));
            }
            return Some(i);
        }
        proof {
            assert(!matches_at(s@, i as int, pat@));
            if m == 0 {
                assert(piece@ =~= pat@);
                assert(false);
            }
        }
        i = i + 1;
    }
    proof {
        assert(forall|j: int| j > n - m ==> !matches_at(s@, j, pat@));
        lemma_find_sub(s@, pat@);
        if find_sub(s@, pat@) != -1 {
            assert(false);
        }
    }
    None
}

/// The prefix of `s` before the first occurrence of `pat`, or all of `s`
/// when `pat` does not occur.
pub open spec fn prefix_before(s: Seq<char>, pat: Seq<char>) -> Seq<char> {
    if find_sub(s, pat) == -1 {
        s
    } else {
        s.subrange(0, find_sub(s, pat))
    }
}

pub fn take_prefix_before(s: &str, pat: &str) -> (r: String)
    ensures
        r@ == prefix_before(s@, pat@),
{
    proof {
        lemma_find_sub(s@, pat@);
    }
    match find_sub_str(s, pat) {
        Some(i) => {
            let piece = s.substring_char(0, i);
            String::from_str(piece)
        },
        None => String::from_str(s),
    }
}

// ---------------------------------------------------------------------------
// Line splitting
// ---------------------------------------------------------------------------

/// Drops a single carriage return at the end of a line body, as `str::lines`
/// does for a line ended by `\r\n`.
pub open spec fn strip_cr(s: Seq<char>) -> Seq<char> {
    if s.len() > 0 && s.last() == '\r' {
        s.drop_last()
    } else {
        s
    }
}

/// The lines of `s`, as `str::lines` yields them: split at `\n`, a `\r`
/// just before the `\n` dropped, and no empty line after a final `\n`.
pub open spec fn lines_of(s: Seq<char>) -> Seq<Seq<char>>
    decreases s.len(),
{
    if s.len() == 0 {
        Seq::<Seq<char>>::empty()
    } else {
        let i = find_char(s, '\n');
        if 0 <= i < s.len() {
            seq![strip_cr(s.subrange(0, i))] + lines_of(s.subrange(i + 1, s.len() as int))
        } else {
            seq![s]
        }
    }
}

fn line_piece(s: &str, from: usize, to: usize) -> (r: String)
    requires
        from <= to <= s@.len(),
    ensures
        r@ == strip_cr(s@.subrange(from as int, to as int)),
{
    let ghost piece = s@.subrange(from as int, to as int);
    if to > from && s.get_char(to - 1) == '\r' {
        let body = s.substring_char(from, to - 1);
        proof {
            assert(piece.drop_last() =~= s@.subrange(from as int, to - 1));
        }
        String::from_str(body)
    } else {
        let body = s.substring_char(from, to);
        String::from_str(body)
    }
}

pub fn split_lines(s: &str) -> (r: Vec<String>)
    ensures
        r.deep_view() == lines_of(s@),
{
    let n = s.unicode_len();
    let mut out: Vec<String> = Vec::new();
    let mut pos: usize = 0;
    proof {
        assert(out.deep_view() + lines_of(s@.subrange(0, n as int)) =~= lines_of(s@.subrange(
            0,
            n as int,
        )));
        assert(s@.subrange(0, n as int) =~= s@);
    }
    while pos < n
        invariant
            n == s@.len(),
            0 <= pos <= n,
            out.deep_view() + lines_of(s@.subrange(pos as int, n as int)) == lines_of(s@),
        decreases n - pos,
    {
        let ghost rest = s@.subrange(pos as int, n as int);
        let j = scan_char(s, pos, '\n');
        proof {
            lemma_find_char(rest, '\n');
            assert(j - pos == find_char(rest, '\n'));
        }
        if j == n {
            // final line without a line ending
            let piece = s.substring_char(pos, n);
            let ghost prev = out.deep_view();
            out.push(String::from_str(piece));
            proof {
                assert(rest.len() > 0 && find_char(rest, '\n') == rest.len());
                assert(lines_of(rest) =~= seq![rest]);
                assert(piece@ =~= rest);
                assert(out.deep_view() =~= prev.push(rest));
                assert(out.deep_view() + lines_of(s@.subrange(n as int, n as int)) =~= lines_of(
                    s@,
                ));
            }
            pos = n;
        } else {
            let line = line_piece(s, pos, j);
            let ghost prev = out.deep_view();
            out.push(line);
            proof {
                let i = find_char(rest, '\n');
                assert(lines_of(rest) == seq![strip_cr(rest.subrange(0, i))] + lines_of(
                    rest.subrange(i + 1, rest.len() as int),
                ));
                assert(rest.subrange(0, i) =~= s@.subrange(pos as int, j as int));
                assert(rest.subrange(i + 1, rest.len() as int) =~= s@.subrange(
                    j + 1,
                    n as int,
                ));
                assert(out.deep_view() =~= prev.push(line@));
                assert(out.deep_view() + lines_of(s@.subrange(j + 1, n as int)) =~= prev + (seq![
                    strip_cr(rest.subrange(0, i)),
                ] + lines_of(rest.subrange(i + 1, rest.len() as int))));
            }
            pos = j + 1;
        }
    }
    proof {
        assert(lines_of(s@.subrange(pos as int, n as int)) =~= Seq::<Seq<char>>::empty());
        assert(out.deep_view() =~= lines_of(s@));
    }
    out
}

} // verus!
