use vstd::prelude::*;
use crate::json::{Json, JsonV, JsonNumber, NumberV, items_view, members_view, lemma_array_view, lemma_object_view};
use crate::text::{decimal, push_decimal, push_str, string_push, chars_of};

verus! {

/// Lower-case hexadecimal digit for `d` (taken modulo sixteen).
pub open spec fn hex_digit(d: nat) -> char {
    let d = d % 16;
    if d < 10 {
        crate::text::digit_char(d)
    } else if d == 10 {
        'a'
    } else if d == 11 {
        'b'
    } else if d == 12 {
        'c'
    } else if d == 13 {
        'd'
    } else if d == 14 {
        'e'
    } else {
        'f'
    }
}

/// How one character of a string is written inside JSON quotes: quote and
/// backslash are escaped, the control characters with a short escape use it,
/// the other control characters become `\u00XX`, everything else is kept.
pub open spec fn escape_char(c: char) -> Seq<char> {
    if c == '"' {
        seq!['\\', '"']
    } else if c == '\\' {
        seq!['\\', '\\']
    } else if c == '\u{8}' {
        seq!['\\', 'b']
    } else if c == '\u{c}' {
        seq!['\\', 'f']
    } else if c == '\n' {
        seq!['\\', 'n']
    } else if c == '\r' {
        seq!['\\', 'r']
    } else if c == '\t' {
        seq!['\\', 't']
    } else if (c as u32) < 0x20 {
        seq!['\\', 'u', '0', '0', hex_digit((c as u32 / 16) as nat), hex_digit((c as u32 % 16) as nat)]
    } else {
        seq![c]
    }
}

/// The escaped form of a string's characters.
pub open spec fn escape_str(s: Seq<char>) -> Seq<char>
    decreases s.len(),
{
    if s.len() == 0 {
        Seq::empty()
    } else {
        escape_str(s.drop_last()) + escape_char(s.last())
    }
}

/// A string as a JSON string literal.
pub open spec fn quoted(s: Seq<char>) -> Seq<char> {
    seq!['"'] + escape_str(s) + seq!['"']
}

/// The text of a number.
pub open spec fn number_text(n: NumberV) -> Seq<char> {
    match n {
        NumberV::PosInt(u) => decimal(u as nat),
        NumberV::NegInt(i) => if i < 0 {
            seq!['-'] + decimal((0 - i) as nat)
        } else {
            decimal(i as nat)
        },
        NumberV::Float(t) => t,
    }
}

/// The compact JSON text of a value.
pub open spec fn jv_text(v: JsonV) -> Seq<char>
    decreases v, 0nat,
{
    match v {
        JsonV::Null => "null"@,
        JsonV::Bool(b) => if b {
            "true"@
        } else {
            "false"@
        },
        JsonV::Number(n) => number_text(n),
        JsonV::Str(s) => quoted(s),
        JsonV::Array(a) => seq!['['] + items_text(a) + seq![']'],
        JsonV::Object(ms) => seq!['{'] + members_text(ms) + seq!['}'],
    }
}

/// The texts of array elements, separated by commas.
pub open spec fn items_text(a: Seq<JsonV>) -> Seq<char>
    decreases a, 1nat,
{
    if a.len() == 0 {
        Seq::empty()
    } else if a.len() == 1 {
        jv_text(a[0])
    } else {
        items_text(a.drop_last()) + seq![','] + jv_text(a.last())
    }
}

/// The texts of object members (`"key":value`), separated by commas.
pub open spec fn members_text(ms: Seq<(Seq<char>, JsonV)>) -> Seq<char>
    decreases ms, 1nat,
{
    if ms.len() == 0 {
        Seq::empty()
    } else if ms.len() == 1 {
        quoted(ms[0].0) + seq![':'] + jv_text(ms[0].1)
    } else {
        members_text(ms.drop_last()) + seq![','] + quoted(ms.last().0) + seq![':'] + jv_text(
            ms.last().1,
        )
    }
}

fn hex(d: u32) -> (c: char)
    requires
        d < 16,
    ensures
        c == hex_digit(d as nat),
{
    match d {
        0 => '0',
        1 => '1',
        2 => '2',
        3 => '3',
        4 => '4',
        5 => '5',
        6 => '6',
        7 => '7',
        8 => '8',
        9 => '9',
        10 => 'a',
        11 => 'b',
        12 => 'c',
        13 => 'd',
        14 => 'e',
        _ => 'f',
    }
}

fn push_escaped_char(out: &mut String, c: char)
    ensures
        final(out)@ == old(out)@ + escape_char(c),
{
    if c == '"' {
        string_push(out, '\\');
        string_push(out, '"');
    } else if c == '\\' {
        string_push(out, '\\');
        string_push(out, '\\');
    } else if c == '\u{8}' {
        string_push(out, '\\');
        string_push(out, 'b');
    } else if c == '\u{c}' {
        string_push(out, '\\');
        string_push(out, 'f');
    } else if c == '\n' {
        string_push(out, '\\');
        string_push(out, 'n');
    } else if c == '\r' {
        string_push(out, '\\');
        string_push(out, 'r');
    } else if c == '\t' {
        string_push(out, '\\');
        string_push(out, 't');
    } else if (c as u32) < 0x20 {
        let u = c as u32;
        string_push(out, '\\');
        string_push(out, 'u');
        string_push(out, '0');
        string_push(out, '0');
        string_push(out, hex(u / 16));
        string_push(out, hex(u % 16));
    } else {
        string_push(out, c);
    }
    proof {
        assert(final(out)@ =~= old(out)@ + escape_char(c));
    }
}

/// Appends `s` as a JSON string literal.
pub(crate) fn push_quoted(out: &mut String, s: &str)
    ensures
        final(out)@ == old(out)@ + quoted(s@),
{
    let ghost start = out@;
    let cs = chars_of(s);
    string_push(out, '"');
    let n = cs.len();
    for i in 0..n
        invariant
            n == cs@.len(),
            cs@ == s@,
            out@ == start + seq!['"'] + escape_str(cs@.take(i as int)),
    {
        push_escaped_char(out, cs[i]);
        proof {
            assert(cs@.take(i + 1).drop_last() =~= cs@.take(i as int));
        }
    }
    string_push(out, '"');
    proof {
        assert(cs@.take(n as int) =~= cs@);
        assert(out@ =~= start + quoted(s@));
    }
}

fn push_number(out: &mut String, n: &JsonNumber)
    ensures
        final(out)@ == old(out)@ + number_text(n@),
{
    match n {
        JsonNumber::PosInt(u) => push_decimal(out, *u),
        JsonNumber::NegInt(i) => {
            if *i < 0 {
                string_push(out, '-');
                let m: i128 = 0i128 - (*i as i128);
                push_decimal(out, m as u64);
                proof {
                    assert(final(out)@ =~= old(out)@ + (seq!['-'] + decimal((0 - *i) as nat)));
                }
            } else {
                push_decimal(out, *i as u64);
            }
        },
        JsonNumber::Float(t) => push_str(out, t.as_str()),
    }
}

/// Appends the compact JSON text of `v`.
pub(crate) fn push_text(out: &mut String, v: &Json)
    ensures
        final(out)@ == old(out)@ + jv_text(v@),
    decreases v@,
{
    let ghost start = out@;
    match v {
        Json::Null => push_str(out, "null"),
        Json::Bool(b) => if *b {
            push_str(out, "true")
        } else {
            push_str(out, "false")
        },
        Json::Number(n) => push_number(out, n),
        Json::String(s) => push_quoted(out, s.as_str()),
        Json::Array(a) => {
            proof {
                lemma_array_view(*a);
            }
            let ghost items = items_view(a@);
            string_push(out, '[');
            let n = a.len();
            for i in 0..n
                invariant
                    n == a@.len(),
                    items == items_view(a@),
                    v@ == JsonV::Array(items),
                    out@ == start + seq!['['] + items_text(items.take(i as int)),
            {
                if i > 0 {
                    string_push(out, ',');
                }
                proof {
                    assert(decreases_to!(v@ => v@->Array_0));
                    assert(decreases_to!(v@->Array_0 => v@->Array_0[i as int]));
                }
                push_text(out, &a[i]);
                proof {
                    assert(items.take(i + 1).drop_last() =~= items.take(i as int));
                    assert(out@ =~= start + seq!['['] + items_text(items.take(i + 1)));
                }
            }
            string_push(out, ']');
            proof {
                assert(items.take(n as int) =~= items);
                assert(out@ =~= start + jv_text(v@));
            }
        },
        Json::Object(ms) => {
            proof {
                lemma_object_view(*ms);
            }
            let ghost mv = members_view(ms@);
            string_push(out, '{');
            let n = ms.len();
            for i in 0..n
                invariant
                    n == ms@.len(),
                    mv == members_view(ms@),
                    v@ == JsonV::Object(mv),
                    out@ == start + seq!['{'] + members_text(mv.take(i as int)),
            {
                if i > 0 {
                    string_push(out, ',');
                }
                push_quoted(out, ms[i].0.as_str());
                string_push(out, ':');
                proof {
                    assert(decreases_to!(v@ => v@->Object_0));
                    assert(decreases_to!(v@->Object_0 => v@->Object_0[i as int]));
                    assert(decreases_to!(v@->Object_0[i as int] => v@->Object_0[i as int].1));
                }
                push_text(out, &ms[i].1);
                proof {
                    assert(mv.take(i + 1).drop_last() =~= mv.take(i as int));
                    assert(out@ =~= start + seq!['{'] + members_text(mv.take(i + 1)));
                }
            }
            string_push(out, '}');
            proof {
                assert(mv.take(n as int) =~= mv);
                assert(out@ =~= start + jv_text(v@));
            }
        },
    }
}

/// The compact JSON text of `v`.
pub fn to_text(v: &Json) -> (s: String)
    ensures
        s@ == jv_text(v@),
{
    let mut s = String::new();
    push_text(&mut s, v);
    proof {
        assert(s@ =~= jv_text(v@));
    }
    s
}

// ---------------------------------------------------------------------------
// Reading string literals back
// ---------------------------------------------------------------------------

/// The value of a hexadecimal digit (either case), or `None`.
pub open spec fn hex_value(c: char) -> Option<int> {
    let x = c as int;
    if 48 <= x <= 57 {
        Some(x - 48)
    } else if 97 <= x <= 102 {
        Some(x - 87)
    } else if 65 <= x <= 70 {
        Some(x - 55)
    } else {
        None
    }
}

/// The character a two-character escape `\e` stands for, if `e` names one.
pub open spec fn short_escape(e: char) -> Option<char> {
    if e == '"' {
        Some('"')
    } else if e == '\\' {
        Some('\\')
    } else if e == '/' {
        Some('/')
    } else if e == 'b' {
        Some('\u{8}')
    } else if e == 'f' {
        Some('\u{c}')
    } else if e == 'n' {
        Some('\n')
    } else if e == 'r' {
        Some('\r')
    } else if e == 't' {
        Some('\t')
    } else {
        None
    }
}

/// The characters that the body `t` of a JSON string literal (the text
/// between its quotes) stands for, read as RFC 8259 reads it: a raw `"` or a
/// raw control character (U+0000 to U+001F) makes it invalid, as does an
/// unknown escape; `\uXXXX` stands for that code point (escaped surrogate
/// pairs are not read). `None` when the text is no valid string body.
pub open spec fn string_body_value(t: Seq<char>) -> Option<Seq<char>>
    decreases t.len(),
{
    if t.len() == 0 {
        Some(Seq::empty())
    } else if (t[0] as int) < 0x20 || t[0] == '"' {
        None
    } else if t[0] != '\\' {
        match string_body_value(t.skip(1)) {
            Some(r) => Some(seq![t[0]] + r),
            None => None,
        }
    } else if t.len() < 2 {
        None
    } else {
        match short_escape(t[1]) {
            Some(d) => match string_body_value(t.skip(2)) {
                Some(r) => Some(seq![d] + r),
                None => None,
            },
            None => if t[1] == 'u' && t.len() >= 6 {
                match (hex_value(t[2]), hex_value(t[3]), hex_value(t[4]), hex_value(t[5])) {
                    (Some(h1), Some(h2), Some(h3), Some(h4)) => {
                        let code = h1 * 4096 + h2 * 256 + h3 * 16 + h4;
                        if 0xD800 <= code <= 0xDFFF {
                            None
                        } else {
                            match string_body_value(t.skip(6)) {
                                Some(r) => Some(seq![code as char] + r),
                                None => None,
                            }
                        }
                    },
                    _ => None,
                }
            } else {
                None
            },
        }
    }
}

proof fn lemma_hex_roundtrip(d: nat)
    requires
        d < 16,
    ensures
        hex_value(hex_digit(d)) == Some(d as int),
{
    if d < 10 {
        assert(d % 10 == d);
        assert(crate::text::digit_char(d) as int == 48 + d) by {
            if d == 0 {} else if d == 1 {} else if d == 2 {} else if d == 3 {} else if d == 4 {}
            else if d == 5 {} else if d == 6 {} else if d == 7 {} else if d == 8 {} else {}
        }
    }
}

proof fn lemma_escape_str_front(s: Seq<char>)
    requires
        s.len() > 0,
    ensures
        escape_str(s) == escape_char(s[0]) + escape_str(s.drop_first()),
    decreases s.len(),
{
    if s.len() == 1 {
        assert(s.drop_last() =~= Seq::<char>::empty());
        assert(s.drop_first() =~= Seq::<char>::empty());
        assert(escape_str(s.drop_last()) =~= Seq::<char>::empty());
        assert(escape_str(s) =~= escape_char(s[0]));
        assert(escape_char(s[0]) + Seq::<char>::empty() =~= escape_char(s[0]));
    } else {
        lemma_escape_str_front(s.drop_last());
        assert(s.drop_last().drop_first() =~= s.drop_first().drop_last());
        assert(s.drop_first().last() == s.last());
        assert(s.drop_last()[0] == s[0]);
        assert(escape_str(s) =~= escape_char(s[0]) + escape_str(s.drop_first()));
    }
}

proof fn lemma_escape_char_reads_back(c: char, t: Seq<char>)
    ensures
        string_body_value(escape_char(c) + t) == match string_body_value(t) {
            Some(r) => Some(seq![c] + r),
            None => None::<Seq<char>>,
        },
{
    let u = escape_char(c) + t;
    if c == '"' || c == '\\' || c == '\u{8}' || c == '\u{c}' || c == '\n' || c == '\r' || c == '\t' {
        assert(u.skip(2) =~= t);
        assert(u[0] == '\\');
    } else if (c as u32) < 0x20 {
        let x = c as u32;
        let hi = (x / 16) as nat;
        let lo = (x % 16) as nat;
        lemma_hex_roundtrip(hi);
        lemma_hex_roundtrip(lo);
        assert(u.skip(6) =~= t);
        assert(u[0] == '\\');
        assert(u[1] == 'u');
        assert(hex_value('0') == Some(0int));
        assert(hi * 16 + lo == x as int);
        assert((x as int) as char == c);
    } else {
        assert(u.skip(1) =~= t);
        assert(u[0] == c);
    }
}

/// What the serializer writes for a string is a valid JSON string literal
/// that reads back as that string: between its quotes there is no raw
/// control character (U+0000 to U+001F) and no raw quote, and reading the
/// escapes back gives every character of the string. Object keys are
/// written the same way.
pub proof fn law_string_text_reads_back(s: Seq<char>)
    ensures
        jv_text(JsonV::Str(s)).len() >= 2,
        jv_text(JsonV::Str(s))[0] == '"',
        jv_text(JsonV::Str(s)).last() == '"',
        string_body_value(jv_text(JsonV::Str(s)).subrange(1, jv_text(JsonV::Str(s)).len() - 1)) == Some(s),
        forall|i: int|
            1 <= i < jv_text(JsonV::Str(s)).len() - 1 ==> (#[trigger] jv_text(JsonV::Str(s))[i] as int) >= 0x20,
{
    let t = jv_text(JsonV::Str(s));
    assert(t.subrange(1, t.len() - 1) =~= escape_str(s));
    lemma_escape_str_reads_back(s);
    assert forall|i: int| 1 <= i < t.len() - 1 implies (#[trigger] t[i] as int) >= 0x20 by {
        assert(t[i] == escape_str(s)[i - 1]);
    }
}

proof fn lemma_escape_str_reads_back(s: Seq<char>)
    ensures
        string_body_value(escape_str(s)) == Some(s),
        forall|i: int| 0 <= i < escape_str(s).len() ==> (#[trigger] escape_str(s)[i] as int) >= 0x20,
    decreases s.len(),
{
    if s.len() == 0 {
        assert(escape_str(s) =~= Seq::<char>::empty());
    } else {
        lemma_escape_str_front(s);
        lemma_escape_str_reads_back(s.drop_first());
        lemma_escape_char_reads_back(s[0], escape_str(s.drop_first()));
        assert(seq![s[0]] + s.drop_first() =~= s);
        lemma_escape_char_no_control(s[0]);
        let e = escape_char(s[0]);
        let r = escape_str(s.drop_first());
        assert forall|i: int| 0 <= i < escape_str(s).len() implies (#[trigger] escape_str(s)[i] as int) >= 0x20 by {
            if i < e.len() {
                assert(escape_str(s)[i] == e[i]);
            } else {
                assert(escape_str(s)[i] == r[i - e.len()]);
            }
        }
    }
}

proof fn lemma_escape_char_no_control(c: char)
    ensures
        forall|i: int| 0 <= i < escape_char(c).len() ==> (#[trigger] escape_char(c)[i] as int) >= 0x20,
{
    if (c as u32) < 0x20 && !(c == '\u{8}' || c == '\u{c}' || c == '\n' || c == '\r' || c == '\t') {
        let x = c as u32;
        let hi = (x / 16) as nat;
        let lo = (x % 16) as nat;
        lemma_hex_roundtrip(hi);
        lemma_hex_roundtrip(lo);
    }
}

} // verus!
