//! The small slice of JSON the daemon's wire protocol uses: objects of
//! string keys whose values are strings, arrays of strings, or `null`.
//!
//! The spec side defines the canonical encoding (`jobj`, `jstr`, `esc`)
//! and a parser over character sequences (`parse_document` and friends);
//! the exec side mirrors both, each function proved equal to its spec.
//! String escaping follows the daemon's own encoder: `\"`, `\\`, the five
//! short control escapes, and `\u00xx` for the remaining control
//! characters; the parser additionally accepts `\/` and any `\uXXXX`
//! scalar, as any JSON producer may emit those.

use vstd::prelude::*;

verus! {

use vstd::string::StrSliceExecFns;

// ---------------------------------------------------------------------
// Values
// ---------------------------------------------------------------------

/// An exec JSON value of the protocol's restricted shape.
pub enum JsonValue {
    Str(Vec<char>),
    Arr(Vec<Vec<char>>),
    Null,
}

/// The mathematical shape of a [`JsonValue`].
pub enum JsonValueView {
    Str(Seq<char>),
    Arr(Seq<Seq<char>>),
    Null,
}

impl View for JsonValue {
    type V = JsonValueView;

    open spec fn view(&self) -> JsonValueView {
        match self {
            JsonValue::Str(s) => JsonValueView::Str(s@),
            JsonValue::Arr(a) => JsonValueView::Arr(a.deep_view()),
            JsonValue::Null => JsonValueView::Null,
        }
    }
}

/// The mathematical shape of a parsed object: its members in order.
pub open spec fn pairs_view(ms: Seq<(Vec<char>, JsonValue)>) -> Seq<(Seq<char>, JsonValueView)> {
    ms.map_values(|p: (Vec<char>, JsonValue)| (p.0@, p.1@))
}

// ---------------------------------------------------------------------
// Encoding, spec side
// ---------------------------------------------------------------------

/// The lowercase hex digit for a value below 16.
pub open spec fn hex_char(v: int) -> char {
    if v == 0 { '0' } else if v == 1 { '1' } else if v == 2 { '2' } else if v == 3 { '3' }
    else if v == 4 { '4' } else if v == 5 { '5' } else if v == 6 { '6' } else if v == 7 { '7' }
    else if v == 8 { '8' } else if v == 9 { '9' } else if v == 10 { 'a' } else if v == 11 { 'b' }
    else if v == 12 { 'c' } else if v == 13 { 'd' } else if v == 14 { 'e' } else { 'f' }
}

/// How one character appears inside an encoded JSON string.
pub open spec fn esc_char(c: char) -> Seq<char> {
    if c == '"' { seq!['\\', '"'] }
    else if c == '\\' { seq!['\\', '\\'] }
    else if c == '\u{8}' { seq!['\\', 'b'] }
    else if c == '\t' { seq!['\\', 't'] }
    else if c == '\n' { seq!['\\', 'n'] }
    else if c == '\u{c}' { seq!['\\', 'f'] }
    else if c == '\r' { seq!['\\', 'r'] }
    else if (c as u32) < 0x20 {
        seq!['\\', 'u', '0', '0', hex_char((c as u32) as int / 16), hex_char((c as u32) as int % 16)]
    } else {
        seq![c]
    }
}

/// The escaped body of an encoded JSON string.
pub open spec fn esc(s: Seq<char>) -> Seq<char>
    decreases s.len(),
{
    if s.len() == 0 {
        Seq::empty()
    } else {
        esc_char(s[0]) + esc(s.drop_first())
    }
}

/// An encoded JSON string: quote, escaped body, quote.
pub open spec fn jstr(s: Seq<char>) -> Seq<char> {
    seq!['"'] + esc(s) + seq!['"']
}

/// The comma-separated items of an encoded array of strings.
pub open spec fn jarr_items(elems: Seq<Seq<char>>) -> Seq<char>
    decreases elems.len(),
{
    if elems.len() == 0 {
        Seq::empty()
    } else if elems.len() == 1 {
        jstr(elems[0])
    } else {
        jstr(elems[0]) + seq![','] + jarr_items(elems.drop_first())
    }
}

/// An encoded array of strings.
pub open spec fn jarr(elems: Seq<Seq<char>>) -> Seq<char> {
    seq!['['] + jarr_items(elems) + seq![']']
}

/// An encoded value.
pub open spec fn jvalue(v: JsonValueView) -> Seq<char> {
    match v {
        JsonValueView::Str(s) => jstr(s),
        JsonValueView::Arr(a) => jarr(a),
        JsonValueView::Null => seq!['n', 'u', 'l', 'l'],
    }
}

/// An encoded object member: key, colon, value.
pub open spec fn jmember(m: (Seq<char>, JsonValueView)) -> Seq<char> {
    jstr(m.0) + seq![':'] + jvalue(m.1)
}

/// The comma-separated members of an encoded object.
pub open spec fn jobj_items(ms: Seq<(Seq<char>, JsonValueView)>) -> Seq<char>
    decreases ms.len(),
{
    if ms.len() == 0 {
        Seq::empty()
    } else if ms.len() == 1 {
        jmember(ms[0])
    } else {
        jmember(ms[0]) + seq![','] + jobj_items(ms.drop_first())
    }
}

/// An encoded object: the canonical compact form the daemon itself emits.
pub open spec fn jobj(ms: Seq<(Seq<char>, JsonValueView)>) -> Seq<char> {
    seq!['{'] + jobj_items(ms) + seq!['}']
}

// ---------------------------------------------------------------------
// Parsing, spec side
// ---------------------------------------------------------------------

/// JSON insignificant whitespace.
pub open spec fn is_ws(c: char) -> bool {
    c == ' ' || c == '\n' || c == '\r' || c == '\t'
}

/// The input with leading whitespace removed.
pub open spec fn skip_ws(s: Seq<char>) -> Seq<char>
    decreases s.len(),
{
    if s.len() > 0 && is_ws(s[0]) {
        skip_ws(s.drop_first())
    } else {
        s
    }
}

/// Whether a character is a hex digit.
pub open spec fn is_hex(c: char) -> bool {
    let u = c as u32;
    (48 <= u && u <= 57) || (97 <= u && u <= 102) || (65 <= u && u <= 70)
}

/// The value of a hex digit.
pub open spec fn hex_val(c: char) -> int {
    let u = c as u32;
    if 48 <= u && u <= 57 { u - 48 }
    else if 97 <= u && u <= 102 { u - 87 }
    else if 65 <= u && u <= 70 { u - 55 }
    else { 0 }
}

/// The value of four hex digits.
pub open spec fn hex4(a: char, b: char, c: char, d: char) -> int {
    hex_val(a) * 4096 + hex_val(b) * 256 + hex_val(c) * 16 + hex_val(d)
}

/// The character a two-character escape stands for, if it is one.
pub open spec fn short_escape(c: char) -> Option<char> {
    if c == '"' { Some('"') }
    else if c == '\\' { Some('\\') }
    else if c == '/' { Some('/') }
    else if c == 'b' { Some('\u{8}') }
    else if c == 'f' { Some('\u{c}') }
    else if c == 'n' { Some('\n') }
    else if c == 'r' { Some('\r') }
    else if c == 't' { Some('\t') }
    else { None }
}

/// Prepends a character to the string of a parse result.
pub open spec fn cons_parsed(c: char, r: Option<(Seq<char>, Seq<char>)>) -> Option<
    (Seq<char>, Seq<char>),
> {
    match r {
        Some((t, rest)) => Some((seq![c] + t, rest)),
        None => None,
    }
}

/// Parses the body of a JSON string after its opening quote: the decoded
/// text and the input after the closing quote.
pub open spec fn parse_string_body(s: Seq<char>) -> Option<(Seq<char>, Seq<char>)>
    decreases s.len(),
{
    if s.len() == 0 {
        None
    } else if s[0] == '"' {
        Some((Seq::empty(), s.drop_first()))
    } else if s[0] == '\\' {
        if s.len() < 2 {
            None
        } else {
            match short_escape(s[1]) {
                Some(c) => cons_parsed(c, parse_string_body(s.skip(2))),
                None => {
                    if s[1] == 'u' {
                        if s.len() >= 6 && is_hex(s[2]) && is_hex(s[3]) && is_hex(s[4]) && is_hex(
                            s[5],
                        ) {
                            let v = hex4(s[2], s[3], s[4], s[5]);
                            if 0xD800 <= v && v <= 0xDFFF {
                                None
                            } else {
                                cons_parsed((v as u32) as char, parse_string_body(s.skip(6)))
                            }
                        } else {
                            None
                        }
                    } else {
                        None
                    }
                },
            }
        }
    } else if (s[0] as u32) < 0x20 {
        None
    } else {
        cons_parsed(s[0], parse_string_body(s.drop_first()))
    }
}

/// Parses a JSON string at the head of the input.
pub open spec fn parse_string(s: Seq<char>) -> Option<(Seq<char>, Seq<char>)> {
    if s.len() > 0 && s[0] == '"' {
        parse_string_body(s.drop_first())
    } else {
        None
    }
}

/// How much input remains after a successful string parse; strictly less
/// than before.
pub proof fn lemma_parse_string_body_len(s: Seq<char>)
    ensures
        parse_string_body(s) matches Some(r) ==> r.1.len() < s.len(),
    decreases s.len(),
{
    if s.len() == 0 {
    } else if s[0] == '"' {
    } else if s[0] == '\\' {
        if s.len() >= 2 {
            if short_escape(s[1]) is Some {
                lemma_parse_string_body_len(s.skip(2));
            } else if s[1] == 'u' {
                if s.len() >= 6 {
                    lemma_parse_string_body_len(s.skip(6));
                }
            }
        }
    } else {
        lemma_parse_string_body_len(s.drop_first());
    }
}

pub proof fn lemma_parse_string_len(s: Seq<char>)
    ensures
        parse_string(s) matches Some(r) ==> r.1.len() < s.len(),
{
    if s.len() > 0 && s[0] == '"' {
        lemma_parse_string_body_len(s.drop_first());
    }
}

pub proof fn lemma_skip_ws_len(s: Seq<char>)
    ensures
        skip_ws(s).len() <= s.len(),
    decreases s.len(),
{
    if s.len() > 0 && is_ws(s[0]) {
        lemma_skip_ws_len(s.drop_first());
    }
}

/// Parses the items of a non-empty array, starting at the first item.
pub open spec fn parse_array_items(s: Seq<char>) -> Option<(Seq<Seq<char>>, Seq<char>)>
    decreases s.len(),
    via parse_array_items_dec
{
    match parse_string(s) {
        None => None,
        Some((item, r1)) => {
            let r2 = skip_ws(r1);
            if r2.len() == 0 {
                None
            } else if r2[0] == ']' {
                Some((seq![item], r2.drop_first()))
            } else if r2[0] == ',' {
                match parse_array_items(skip_ws(r2.drop_first())) {
                    Some((items, r3)) => Some((seq![item] + items, r3)),
                    None => None,
                }
            } else {
                None
            }
        },
    }
}

#[via_fn]
proof fn parse_array_items_dec(s: Seq<char>) {
    lemma_parse_string_len(s);
    match parse_string(s) {
        None => {},
        Some((item, r1)) => {
            lemma_skip_ws_len(r1);
            let r2 = skip_ws(r1);
            if r2.len() > 0 && r2[0] == ',' {
                lemma_skip_ws_len(r2.drop_first());
            }
        },
    }
}

/// Parses an array of strings at the head of the input.
pub open spec fn parse_array(s: Seq<char>) -> Option<(Seq<Seq<char>>, Seq<char>)> {
    if s.len() > 0 && s[0] == '[' {
        let r1 = skip_ws(s.drop_first());
        if r1.len() > 0 && r1[0] == ']' {
            Some((Seq::empty(), r1.drop_first()))
        } else {
            parse_array_items(r1)
        }
    } else {
        None
    }
}

pub proof fn lemma_parse_array_items_len(s: Seq<char>)
    ensures
        parse_array_items(s) matches Some(r) ==> r.1.len() < s.len(),
    decreases s.len(),
{
    lemma_parse_string_len(s);
    match parse_string(s) {
        None => {},
        Some((item, r1)) => {
            lemma_skip_ws_len(r1);
            let r2 = skip_ws(r1);
            if r2.len() > 0 && r2[0] == ',' {
                lemma_skip_ws_len(r2.drop_first());
                lemma_parse_array_items_len(skip_ws(r2.drop_first()));
            }
        },
    }
}

pub proof fn lemma_parse_array_len(s: Seq<char>)
    ensures
        parse_array(s) matches Some(r) ==> r.1.len() < s.len(),
{
    if s.len() > 0 && s[0] == '[' {
        lemma_skip_ws_len(s.drop_first());
        lemma_parse_array_items_len(skip_ws(s.drop_first()));
    }
}

/// Parses a value: a string, an array of strings, or `null`.
pub open spec fn parse_value(s: Seq<char>) -> Option<(JsonValueView, Seq<char>)> {
    if s.len() == 0 {
        None
    } else if s[0] == '"' {
        match parse_string(s) {
            Some((t, r)) => Some((JsonValueView::Str(t), r)),
            None => None,
        }
    } else if s[0] == '[' {
        match parse_array(s) {
            Some((a, r)) => Some((JsonValueView::Arr(a), r)),
            None => None,
        }
    } else if s[0] == 'n' {
        if s.len() >= 4 && s[1] == 'u' && s[2] == 'l' && s[3] == 'l' {
            Some((JsonValueView::Null, s.skip(4)))
        } else {
            None
        }
    } else {
        None
    }
}

pub proof fn lemma_parse_value_len(s: Seq<char>)
    ensures
        parse_value(s) matches Some(r) ==> r.1.len() < s.len(),
{
    lemma_parse_string_len(s);
    lemma_parse_array_len(s);
}

/// Parses one object member: key, colon, value.
pub open spec fn parse_member(s: Seq<char>) -> Option<((Seq<char>, JsonValueView), Seq<char>)> {
    match parse_string(s) {
        None => None,
        Some((k, r1)) => {
            let r2 = skip_ws(r1);
            if r2.len() > 0 && r2[0] == ':' {
                match parse_value(skip_ws(r2.drop_first())) {
                    Some((v, r3)) => Some(((k, v), r3)),
                    None => None,
                }
            } else {
                None
            }
        },
    }
}

pub proof fn lemma_parse_member_len(s: Seq<char>)
    ensures
        parse_member(s) matches Some(r) ==> r.1.len() < s.len(),
{
    lemma_parse_string_len(s);
    match parse_string(s) {
        None => {},
        Some((k, r1)) => {
            lemma_skip_ws_len(r1);
            let r2 = skip_ws(r1);
            if r2.len() > 0 && r2[0] == ':' {
                lemma_skip_ws_len(r2.drop_first());
                lemma_parse_value_len(skip_ws(r2.drop_first()));
            }
        },
    }
}

/// Parses the members of a non-empty object, starting at the first key.
pub open spec fn parse_members(s: Seq<char>) -> Option<
    (Seq<(Seq<char>, JsonValueView)>, Seq<char>),
>
    decreases s.len(),
    via parse_members_dec
{
    match parse_member(s) {
        None => None,
        Some((m, r1)) => {
            let r2 = skip_ws(r1);
            if r2.len() == 0 {
                None
            } else if r2[0] == '}' {
                Some((seq![m], r2.drop_first()))
            } else if r2[0] == ',' {
                match parse_members(skip_ws(r2.drop_first())) {
                    Some((ms, r3)) => Some((seq![m] + ms, r3)),
                    None => None,
                }
            } else {
                None
            }
        },
    }
}

#[via_fn]
proof fn parse_members_dec(s: Seq<char>) {
    lemma_parse_member_len(s);
    match parse_member(s) {
        None => {},
        Some((m, r1)) => {
            lemma_skip_ws_len(r1);
            let r2 = skip_ws(r1);
            if r2.len() > 0 && r2[0] == ',' {
                lemma_skip_ws_len(r2.drop_first());
            }
        },
    }
}

/// Parses an object at the head of the input, whitespace allowed first.
pub open spec fn parse_object(s: Seq<char>) -> Option<
    (Seq<(Seq<char>, JsonValueView)>, Seq<char>),
> {
    let s0 = skip_ws(s);
    if s0.len() > 0 && s0[0] == '{' {
        let r1 = skip_ws(s0.drop_first());
        if r1.len() > 0 && r1[0] == '}' {
            Some((Seq::empty(), r1.drop_first()))
        } else {
            parse_members(r1)
        }
    } else {
        None
    }
}

/// Parses a whole document: one object and nothing but trailing
/// whitespace after it.
pub open spec fn parse_document(s: Seq<char>) -> Option<Seq<(Seq<char>, JsonValueView)>> {
    match parse_object(s) {
        Some((ms, rest)) => if skip_ws(rest).len() == 0 {
            Some(ms)
        } else {
            None
        },
        None => None,
    }
}

/// The value under the first occurrence of a key.
pub open spec fn lookup(ms: Seq<(Seq<char>, JsonValueView)>, key: Seq<char>) -> Option<
    JsonValueView,
>
    decreases ms.len(),
{
    if ms.len() == 0 {
        None
    } else if ms[0].0 == key {
        Some(ms[0].1)
    } else {
        lookup(ms.drop_first(), key)
    }
}

// ---------------------------------------------------------------------
// The canonical encoding parses back to what was encoded
// ---------------------------------------------------------------------

/// A hex digit produced by the encoder reads back as its value.
proof fn lemma_hex_char_val(v: int)
    requires
        0 <= v < 16,
    ensures
        is_hex(hex_char(v)),
        hex_val(hex_char(v)) == v,
{
}

/// A two-character escape at the head of the input parses as the
/// character it stands for.
proof fn lemma_parse_short_escape(c: char, e: char, u1: Seq<char>, rest: Seq<char>)
    requires
        short_escape(e) == Some(c),
        parse_string_body(esc(u1) + seq!['"'] + rest) == Some((u1, rest)),
    ensures
        parse_string_body(seq!['\\', e] + esc(u1) + seq!['"'] + rest) == Some(
            (seq![c] + u1, rest),
        ),
{
    let s = seq!['\\', e] + esc(u1) + seq!['"'] + rest;
    assert(s[0] == '\\');
    assert(s[1] == e);
    assert(s.len() >= 2);
    assert(s.skip(2) =~= esc(u1) + seq!['"'] + rest);
}

/// The escaped body of a string, followed by the closing quote, parses
/// back to the string.
pub proof fn lemma_parse_string_body_esc(u: Seq<char>, rest: Seq<char>)
    ensures
        parse_string_body(esc(u) + seq!['"'] + rest) == Some((u, rest)),
    decreases u.len(),
{
    let s = esc(u) + seq!['"'] + rest;
    if u.len() == 0 {
        assert(esc(u) =~= Seq::<char>::empty());
        assert(s[0] == '"');
        assert(s.drop_first() =~= rest);
        assert(u =~= Seq::<char>::empty());
    } else {
        let c = u[0];
        let u1 = u.drop_first();
        lemma_parse_string_body_esc(u1, rest);
        let s1 = esc(u1) + seq!['"'] + rest;
        assert(seq![c] + u1 =~= u);
        if c == '"' {
            assert(s =~= seq!['\\', '"'] + s1);
            lemma_parse_short_escape(c, '"', u1, rest);
        } else if c == '\\' {
            assert(s =~= seq!['\\', '\\'] + s1);
            lemma_parse_short_escape(c, '\\', u1, rest);
        } else if c == '\u{8}' {
            assert(s =~= seq!['\\', 'b'] + s1);
            lemma_parse_short_escape(c, 'b', u1, rest);
        } else if c == '\t' {
            assert(s =~= seq!['\\', 't'] + s1);
            lemma_parse_short_escape(c, 't', u1, rest);
        } else if c == '\n' {
            assert(s =~= seq!['\\', 'n'] + s1);
            lemma_parse_short_escape(c, 'n', u1, rest);
        } else if c == '\u{c}' {
            assert(s =~= seq!['\\', 'f'] + s1);
            lemma_parse_short_escape(c, 'f', u1, rest);
        } else if c == '\r' {
            assert(s =~= seq!['\\', 'r'] + s1);
            lemma_parse_short_escape(c, 'r', u1, rest);
        } else if (c as u32) < 0x20 {
            let cu = (c as u32) as int;
            let h1 = hex_char(cu / 16);
            let h0 = hex_char(cu % 16);
            assert(s =~= seq!['\\', 'u', '0', '0', h1, h0] + s1);
            assert(s[0] == '\\');
            assert(s[1] == 'u');
            assert(short_escape('u') is None);
            assert(s.len() >= 6);
            assert(s[2] == '0');
            assert(s[3] == '0');
            assert(s[4] == h1);
            assert(s[5] == h0);
            lemma_hex_char_val(cu / 16);
            lemma_hex_char_val(cu % 16);
            assert(hex_val('0') == 0);
            vstd::arithmetic::div_mod::lemma_fundamental_div_mod(cu, 16);
            assert(hex4(s[2], s[3], s[4], s[5]) == cu);
            vstd::utf8::char_u32_cast(c, c as u32);
            assert(((cu as u32) as char) == c);
            assert(s.skip(6) =~= s1);
        } else {
            assert(s[0] == c);
            assert(s.drop_first() =~= s1);
        }
    }
}

/// An encoded string parses back to itself.
pub proof fn lemma_parse_jstr(u: Seq<char>, rest: Seq<char>)
    ensures
        parse_string(jstr(u) + rest) == Some((u, rest)),
{
    let s = jstr(u) + rest;
    assert(s[0] == '"');
    assert(s.drop_first() =~= esc(u) + seq!['"'] + rest);
    lemma_parse_string_body_esc(u, rest);
}

/// The items of an encoded non-empty array, with the closing bracket,
/// parse back to the items.
pub proof fn lemma_parse_jarr_items(elems: Seq<Seq<char>>, rest: Seq<char>)
    requires
        elems.len() >= 1,
    ensures
        parse_array_items(jarr_items(elems) + seq![']'] + rest) == Some((elems, rest)),
    decreases elems.len(),
{
    let s = jarr_items(elems) + seq![']'] + rest;
    if elems.len() == 1 {
        let tail = seq![']'] + rest;
        assert(s =~= jstr(elems[0]) + tail);
        lemma_parse_jstr(elems[0], tail);
        assert(tail[0] == ']');
        assert(skip_ws(tail) == tail);
        assert(tail.drop_first() =~= rest);
        assert(seq![elems[0]] =~= elems);
    } else {
        let inner = jarr_items(elems.drop_first()) + seq![']'] + rest;
        let tail = seq![','] + inner;
        assert(s =~= jstr(elems[0]) + tail);
        lemma_parse_jstr(elems[0], tail);
        assert(tail[0] == ',');
        assert(skip_ws(tail) == tail);
        assert(tail.drop_first() =~= inner);
        assert(jarr_items(elems.drop_first())[0] == jstr(elems.drop_first()[0])[0]);
        assert(inner[0] == '"');
        assert(skip_ws(inner) == inner);
        lemma_parse_jarr_items(elems.drop_first(), rest);
        assert(seq![elems[0]] + elems.drop_first() =~= elems);
    }
}

/// An encoded array parses back to its items.
pub proof fn lemma_parse_jarr(elems: Seq<Seq<char>>, rest: Seq<char>)
    ensures
        parse_array(jarr(elems) + rest) == Some((elems, rest)),
{
    let s = jarr(elems) + rest;
    assert(s[0] == '[');
    assert(s.drop_first() =~= jarr_items(elems) + seq![']'] + rest);
    if elems.len() == 0 {
        assert(jarr_items(elems) =~= Seq::<char>::empty());
        let tail = seq![']'] + rest;
        assert(s.drop_first() =~= tail);
        assert(tail[0] == ']');
        assert(skip_ws(tail) == tail);
        assert(tail.drop_first() =~= rest);
    } else {
        let body = jarr_items(elems) + seq![']'] + rest;
        assert(jarr_items(elems)[0] == jstr(elems[0])[0]);
        assert(body[0] == '"');
        assert(skip_ws(body) == body);
        lemma_parse_jarr_items(elems, rest);
    }
}

/// An encoded value parses back to itself.
pub proof fn lemma_parse_jvalue(v: JsonValueView, rest: Seq<char>)
    ensures
        parse_value(jvalue(v) + rest) == Some((v, rest)),
{
    let s = jvalue(v) + rest;
    match v {
        JsonValueView::Str(u) => {
            assert(s[0] == '"');
            assert(s =~= jstr(u) + rest);
            lemma_parse_jstr(u, rest);
        },
        JsonValueView::Arr(elems) => {
            assert(s[0] == '[');
            assert(s =~= jarr(elems) + rest);
            lemma_parse_jarr(elems, rest);
        },
        JsonValueView::Null => {
            assert(s[0] == 'n');
            assert(s[1] == 'u');
            assert(s[2] == 'l');
            assert(s[3] == 'l');
            assert(s.len() >= 4);
            assert(s.skip(4) =~= rest);
        },
    }
}

/// An encoded member parses back to itself.
pub proof fn lemma_parse_jmember(m: (Seq<char>, JsonValueView), rest: Seq<char>)
    ensures
        parse_member(jmember(m) + rest) == Some((m, rest)),
{
    let s = jmember(m) + rest;
    let tail = seq![':'] + jvalue(m.1) + rest;
    assert(s =~= jstr(m.0) + tail);
    lemma_parse_jstr(m.0, tail);
    assert(tail[0] == ':');
    assert(skip_ws(tail) == tail);
    assert(tail.drop_first() =~= jvalue(m.1) + rest);
    let body = jvalue(m.1) + rest;
    match m.1 {
        JsonValueView::Str(u) => {
            assert(body[0] == '"');
        },
        JsonValueView::Arr(elems) => {
            assert(body[0] == '[');
        },
        JsonValueView::Null => {
            assert(body[0] == 'n');
        },
    }
    assert(skip_ws(body) == body);
    lemma_parse_jvalue(m.1, rest);
    assert((m.0, m.1) == m);
}

/// The members of an encoded non-empty object, with the closing brace,
/// parse back to the members.
pub proof fn lemma_parse_jobj_items(ms: Seq<(Seq<char>, JsonValueView)>, rest: Seq<char>)
    requires
        ms.len() >= 1,
    ensures
        parse_members(jobj_items(ms) + seq!['}'] + rest) == Some((ms, rest)),
    decreases ms.len(),
{
    let s = jobj_items(ms) + seq!['}'] + rest;
    if ms.len() == 1 {
        let tail = seq!['}'] + rest;
        assert(s =~= jmember(ms[0]) + tail);
        lemma_parse_jmember(ms[0], tail);
        assert(tail[0] == '}');
        assert(skip_ws(tail) == tail);
        assert(tail.drop_first() =~= rest);
        assert(seq![ms[0]] =~= ms);
    } else {
        let inner = jobj_items(ms.drop_first()) + seq!['}'] + rest;
        let tail = seq![','] + inner;
        assert(s =~= jmember(ms[0]) + tail);
        lemma_parse_jmember(ms[0], tail);
        assert(tail[0] == ',');
        assert(skip_ws(tail) == tail);
        assert(tail.drop_first() =~= inner);
        assert(jobj_items(ms.drop_first())[0] == jmember(ms.drop_first()[0])[0]);
        assert(jmember(ms.drop_first()[0])[0] == jstr(ms.drop_first()[0].0)[0]);
        assert(inner[0] == '"');
        assert(skip_ws(inner) == inner);
        lemma_parse_jobj_items(ms.drop_first(), rest);
        assert(seq![ms[0]] + ms.drop_first() =~= ms);
    }
}

/// An encoded object parses back to its members.
pub proof fn lemma_parse_jobj(ms: Seq<(Seq<char>, JsonValueView)>, rest: Seq<char>)
    ensures
        parse_object(jobj(ms) + rest) == Some((ms, rest)),
{
    let s = jobj(ms) + rest;
    assert(s[0] == '{');
    assert(skip_ws(s) == s);
    assert(s.drop_first() =~= jobj_items(ms) + seq!['}'] + rest);
    if ms.len() == 0 {
        assert(jobj_items(ms) =~= Seq::<char>::empty());
        let tail = seq!['}'] + rest;
        assert(s.drop_first() =~= tail);
        assert(tail[0] == '}');
        assert(skip_ws(tail) == tail);
        assert(tail.drop_first() =~= rest);
    } else {
        let body = jobj_items(ms) + seq!['}'] + rest;
        assert(jobj_items(ms)[0] == jmember(ms[0])[0]);
        assert(jmember(ms[0])[0] == jstr(ms[0].0)[0]);
        assert(body[0] == '"');
        assert(skip_ws(body) == body);
        lemma_parse_jobj_items(ms, rest);
    }
}

/// An encoded object, as a whole document, parses back to its members.
pub proof fn lemma_parse_jobj_document(ms: Seq<(Seq<char>, JsonValueView)>)
    ensures
        parse_document(jobj(ms)) == Some(ms),
{
    assert(jobj(ms) + Seq::<char>::empty() =~= jobj(ms));
    lemma_parse_jobj(ms, Seq::empty());
    assert(skip_ws(Seq::<char>::empty()).len() == 0);
}

// ---------------------------------------------------------------------
// Character and string helpers, exec side
// ---------------------------------------------------------------------

/// Relies on `char::from_u32`: `Some` exactly for Unicode scalar values,
/// yielding the character with that code.
#[verifier::external_body]
fn char_from_u32(v: u32) -> (r: Option<char>)
    ensures
        r matches Some(c) ==> c as u32 == v,
        r is None ==> !vstd::utf8::is_scalar(v),
{
    char::from_u32(v)
}

/// Relies on `String`'s `FromIterator` over `char`: collecting yields
/// the string of exactly these characters, in order.
#[verifier::external_body]
pub(crate) fn chars_to_string(v: &Vec<char>) -> (r: String)
    ensures
        r@ == v@,
{
    v.iter().collect()
}

/// The characters of a string slice, as a vector.
pub(crate) fn str_chars(s: &str) -> (r: Vec<char>)
    ensures
        r@ == s@,
{
    let n = s.unicode_len();
    let mut v: Vec<char> = Vec::new();
    let mut i: usize = 0;
    while i < n
        invariant
            i <= n,
            n == s@.len(),
            v@ == s@.take(i as int),
        decreases n - i,
    {
        let c = s.get_char(i);
        v.push(c);
        proof {
            assert(s@.take(i as int).push(s@[i as int]) =~= s@.take(i as int + 1));
        }
        i = i + 1;
    }
    proof {
        assert(s@.take(n as int) =~= s@);
    }
    v
}

/// Whether a character vector holds exactly the text of a string slice.
pub(crate) fn is_lit(v: &Vec<char>, lit: &str) -> (r: bool)
    ensures
        r == (v@ == lit@),
{
    let n = lit.unicode_len();
    if v.len() != n {
        return false;
    }
    let mut k: usize = 0;
    while k < n
        invariant
            k <= n,
            n == lit@.len(),
            v@.len() == n,
            forall|m: int| 0 <= m < k ==> v@[m] == lit@[m],
        decreases n - k,
    {
        if v[k] != lit.get_char(k) {
            return false;
        }
        k = k + 1;
    }
    proof {
        assert(v@ =~= lit@);
    }
    true
}

// ---------------------------------------------------------------------
// Encoding, exec side
// ---------------------------------------------------------------------

/// The lowercase hex digit for a value below 16.
fn e_hex_char(v: u32) -> (r: char)
    requires
        v < 16,
    ensures
        r == hex_char(v as int),
{
    if v == 0 { '0' } else if v == 1 { '1' } else if v == 2 { '2' } else if v == 3 { '3' }
    else if v == 4 { '4' } else if v == 5 { '5' } else if v == 6 { '6' } else if v == 7 { '7' }
    else if v == 8 { '8' } else if v == 9 { '9' } else if v == 10 { 'a' } else if v == 11 { 'b' }
    else if v == 12 { 'c' } else if v == 13 { 'd' } else if v == 14 { 'e' } else { 'f' }
}

/// Appends the escaped form of one character.
fn push_esc_char(out: &mut Vec<char>, c: char)
    ensures
        final(out)@ == old(out)@ + esc_char(c),
{
    if c == '"' {
        out.push('\\');
        out.push('"');
    } else if c == '\\' {
        out.push('\\');
        out.push('\\');
    } else if c == '\u{8}' {
        out.push('\\');
        out.push('b');
    } else if c == '\t' {
        out.push('\\');
        out.push('t');
    } else if c == '\n' {
        out.push('\\');
        out.push('n');
    } else if c == '\u{c}' {
        out.push('\\');
        out.push('f');
    } else if c == '\r' {
        out.push('\\');
        out.push('r');
    } else if (c as u32) < 0x20 {
        out.push('\\');
        out.push('u');
        out.push('0');
        out.push('0');
        let hi = e_hex_char((c as u32) / 16);
        out.push(hi);
        let lo = e_hex_char((c as u32) % 16);
        out.push(lo);
    } else {
        out.push(c);
    }
    proof {
        assert(out@ =~= old(out)@ + esc_char(c));
    }
}

/// Appends the escaped body of a string, from character `i` on.
fn push_esc(out: &mut Vec<char>, s: &str, i: usize)
    requires
        i <= s@.len(),
    ensures
        final(out)@ == old(out)@ + esc(s@.skip(i as int)),
    decreases s@.len() - i,
{
    let n = s.unicode_len();
    if i == n {
        proof {
            assert(s@.skip(i as int) =~= Seq::<char>::empty());
            assert(out@ =~= out@ + esc(Seq::<char>::empty()));
        }
        return ;
    }
    let c = s.get_char(i);
    push_esc_char(out, c);
    push_esc(out, s, i + 1);
    proof {
        assert(s@.skip(i as int)[0] == c);
        assert(s@.skip(i as int).drop_first() =~= s@.skip(i as int + 1));
        assert(out@ =~= old(out)@ + esc(s@.skip(i as int)));
    }
}

/// Appends an encoded JSON string.
pub(crate) fn push_jstr(out: &mut Vec<char>, s: &str)
    ensures
        final(out)@ == old(out)@ + jstr(s@),
{
    out.push('"');
    push_esc(out, s, 0);
    out.push('"');
    proof {
        assert(s@.skip(0) =~= s@);
        assert(out@ =~= old(out)@ + jstr(s@));
    }
}

/// Appends the comma-separated items of a non-empty array, from `i` on.
fn push_jarr_items(out: &mut Vec<char>, v: &Vec<String>, i: usize)
    requires
        i < v@.len(),
    ensures
        final(out)@ == old(out)@ + jarr_items(v.deep_view().skip(i as int)),
    decreases v@.len() - i,
{
    let n = v.len();
    push_jstr(out, v[i].as_str());
    proof {
        assert(v.deep_view().skip(i as int)[0] == v@[i as int]@);
    }
    if i < n - 1 {
        out.push(',');
        push_jarr_items(out, v, i + 1);
        proof {
            assert(v.deep_view().skip(i as int).drop_first() =~= v.deep_view().skip(
                i as int + 1,
            ));
            assert(out@ =~= old(out)@ + jarr_items(v.deep_view().skip(i as int)));
        }
    } else {
        proof {
            assert(v.deep_view().skip(i as int).len() == 1);
            assert(out@ =~= old(out)@ + jarr_items(v.deep_view().skip(i as int)));
        }
    }
}

/// Appends an encoded array of strings.
pub(crate) fn push_jarr(out: &mut Vec<char>, v: &Vec<String>)
    ensures
        final(out)@ == old(out)@ + jarr(v.deep_view()),
{
    out.push('[');
    if v.len() > 0 {
        push_jarr_items(out, v, 0);
        proof {
            assert(v.deep_view().skip(0) =~= v.deep_view());
        }
    }
    out.push(']');
    proof {
        assert(out@ =~= old(out)@ + jarr(v.deep_view()));
    }
}

// ---------------------------------------------------------------------
// Parsing, exec side
// ---------------------------------------------------------------------

/// Whether position `j` holds a whitespace character.
fn ws_at(s: &Vec<char>, j: usize) -> (b: bool)
    ensures
        b == (j < s@.len() && is_ws(s@[j as int])),
{
    if j < s.len() {
        let c = s[j];
        c == ' ' || c == '\n' || c == '\r' || c == '\t'
    } else {
        false
    }
}

/// The first position at or after `i` holding no whitespace.
fn e_skip_ws(s: &Vec<char>, i: usize) -> (j: usize)
    requires
        i <= s@.len(),
    ensures
        i <= j <= s@.len(),
        s@.skip(j as int) == skip_ws(s@.skip(i as int)),
    decreases s@.len() - i,
{
    let n = s.len();
    let mut j = i;
    while ws_at(s, j)
        invariant
            i <= j <= s@.len(),
            n == s@.len(),
            skip_ws(s@.skip(i as int)) == skip_ws(s@.skip(j as int)),
        decreases s@.len() - j,
    {
        proof {
            assert(s@.skip(j as int)[0] == s@[j as int]);
            assert(s@.skip(j as int).drop_first() =~= s@.skip(j as int + 1));
        }
        j = j + 1;
    }
    proof {
        assert(skip_ws(s@.skip(j as int)) == s@.skip(j as int));
    }
    j
}

/// The value of a hex digit, if the character is one.
fn e_hex_val(c: char) -> (r: Option<u32>)
    ensures
        r matches Some(v) ==> is_hex(c) && v == hex_val(c) && v < 16,
        r is None ==> !is_hex(c),
{
    let u = c as u32;
    if 48 <= u && u <= 57 {
        Some(u - 48)
    } else if 97 <= u && u <= 102 {
        Some(u - 87)
    } else if 65 <= u && u <= 70 {
        Some(u - 55)
    } else {
        None
    }
}

/// Parses the body of a string after its opening quote.
fn e_parse_string_body(s: &Vec<char>, i: usize) -> (r: Option<(Vec<char>, usize)>)
    requires
        i <= s@.len(),
    ensures
        (match r {
            Some(p) => i <= p.1 && p.1 <= s@.len() && parse_string_body(s@.skip(i as int))
                == Some((p.0@, s@.skip(p.1 as int))),
            None => parse_string_body(s@.skip(i as int)) is None,
        }),
    decreases s@.len() - i,
{
    let ghost s0 = s@.skip(i as int);
    if i == s.len() {
        return None;
    }
    let c = s[i];
    proof {
        assert(s0[0] == c);
    }
    if c == '"' {
        proof {
            assert(s0.drop_first() =~= s@.skip(i as int + 1));
        }
        let t: Vec<char> = Vec::new();
        return Some((t, i + 1));
    }
    if c == '\\' {
        if s.len() - i < 2 {
            return None;
        }
        let e = s[i + 1];
        proof {
            assert(s0[1] == e);
        }
        let dec: Option<char> = if e == '"' {
            Some('"')
        } else if e == '\\' {
            Some('\\')
        } else if e == '/' {
            Some('/')
        } else if e == 'b' {
            Some('\u{8}')
        } else if e == 'f' {
            Some('\u{c}')
        } else if e == 'n' {
            Some('\n')
        } else if e == 'r' {
            Some('\r')
        } else if e == 't' {
            Some('\t')
        } else {
            None
        };
        proof {
            assert(dec == short_escape(e));
        }
        if let Some(d) = dec {
            proof {
                assert(s0.skip(2) =~= s@.skip(i as int + 2));
            }
            match e_parse_string_body(s, i + 2) {
                Some((t_rec, j)) => {
                    let mut t = t_rec;
                    let ghost tv = t@;
                    t.insert(0, d);
                    proof {
                        assert(t@ =~= seq![d] + tv);
                    }
                    return Some((t, j));
                },
                None => {
                    return None;
                },
            }
        }
        if e == 'u' {
            if s.len() - i < 6 {
                return None;
            }
            proof {
                assert(s0[2] == s@[i as int + 2]);
                assert(s0[3] == s@[i as int + 3]);
                assert(s0[4] == s@[i as int + 4]);
                assert(s0[5] == s@[i as int + 5]);
            }
            let h0 = e_hex_val(s[i + 2]);
            let h1 = e_hex_val(s[i + 3]);
            let h2 = e_hex_val(s[i + 4]);
            let h3 = e_hex_val(s[i + 5]);
            if h0.is_none() || h1.is_none() || h2.is_none() || h3.is_none() {
                return None;
            }
            let v: u32 = h0.unwrap() * 4096 + h1.unwrap() * 256 + h2.unwrap() * 16 + h3.unwrap();
            proof {
                assert(v as int == hex4(s0[2], s0[3], s0[4], s0[5]));
            }
            if 0xD800 <= v && v <= 0xDFFF {
                return None;
            }
            match char_from_u32(v) {
                Some(d) => {
                    proof {
                        vstd::utf8::char_u32_cast(d, v);
                        assert(s0.skip(6) =~= s@.skip(i as int + 6));
                    }
                    match e_parse_string_body(s, i + 6) {
                        Some((t_rec, j)) => {
                            let mut t = t_rec;
                            let ghost tv = t@;
                            t.insert(0, d);
                            proof {
                                assert(t@ =~= seq![d] + tv);
                            }
                            return Some((t, j));
                        },
                        None => {
                            return None;
                        },
                    }
                },
                None => {
                    proof {
                        assert(false);
                    }
                    return None;
                },
            }
        }
        return None;
    }
    if (c as u32) < 0x20 {
        return None;
    }
    proof {
        assert(s0.drop_first() =~= s@.skip(i as int + 1));
    }
    match e_parse_string_body(s, i + 1) {
        Some((t_rec, j)) => {
            let mut t = t_rec;
            let ghost tv = t@;
            t.insert(0, c);
            proof {
                assert(t@ =~= seq![c] + tv);
            }
            Some((t, j))
        },
        None => None,
    }
}

/// Parses a string at position `i`.
fn e_parse_string(s: &Vec<char>, i: usize) -> (r: Option<(Vec<char>, usize)>)
    requires
        i <= s@.len(),
    ensures
        (match r {
            Some(p) => i <= p.1 && p.1 <= s@.len() && parse_string(s@.skip(i as int)) == Some(
                (p.0@, s@.skip(p.1 as int)),
            ),
            None => parse_string(s@.skip(i as int)) is None,
        }),
{
    if i == s.len() {
        return None;
    }
    if s[i] != '"' {
        proof {
            assert(s@.skip(i as int)[0] == s@[i as int]);
        }
        return None;
    }
    proof {
        assert(s@.skip(i as int)[0] == s@[i as int]);
        assert(s@.skip(i as int).drop_first() =~= s@.skip(i as int + 1));
    }
    e_parse_string_body(s, i + 1)
}

/// Parses the items of a non-empty array at position `i`.
fn e_parse_array_items(s: &Vec<char>, i: usize) -> (r: Option<(Vec<Vec<char>>, usize)>)
    requires
        i <= s@.len(),
    ensures
        (match r {
            Some(p) => i <= p.1 && p.1 <= s@.len() && parse_array_items(s@.skip(i as int))
                == Some((p.0.deep_view(), s@.skip(p.1 as int))),
            None => parse_array_items(s@.skip(i as int)) is None,
        }),
    decreases s@.len() - i,
{
    let item = match e_parse_string(s, i) {
        Some(p) => p,
        None => {
            return None;
        },
    };
    let (item, r1) = item;
    let r2 = e_skip_ws(s, r1);
    if r2 == s.len() {
        return None;
    }
    let c = s[r2];
    proof {
        assert(s@.skip(r2 as int)[0] == c);
    }
    if c == ']' {
        let mut items: Vec<Vec<char>> = Vec::new();
        items.push(item);
        proof {
            assert(s@.skip(r2 as int).drop_first() =~= s@.skip(r2 as int + 1));
            assert(items.deep_view() =~~= seq![item@]);
        }
        return Some((items, r2 + 1));
    }
    if c == ',' {
        proof {
            assert(s@.skip(r2 as int).drop_first() =~= s@.skip(r2 as int + 1));
        }
        let r3 = e_skip_ws(s, r2 + 1);
        match e_parse_array_items(s, r3) {
            Some((items_rec, j)) => {
                let mut items = items_rec;
                let ghost iv = items.deep_view();
                items.insert(0, item);
                proof {
                    assert(items.deep_view() =~~= seq![item@] + iv);
                }
                Some((items, j))
            },
            None => None,
        }
    } else {
        None
    }
}

/// Parses an array of strings at position `i`.
fn e_parse_array(s: &Vec<char>, i: usize) -> (r: Option<(Vec<Vec<char>>, usize)>)
    requires
        i <= s@.len(),
    ensures
        (match r {
            Some(p) => i <= p.1 && p.1 <= s@.len() && parse_array(s@.skip(i as int)) == Some(
                (p.0.deep_view(), s@.skip(p.1 as int)),
            ),
            None => parse_array(s@.skip(i as int)) is None,
        }),
{
    if i == s.len() {
        return None;
    }
    if s[i] != '[' {
        proof {
            assert(s@.skip(i as int)[0] == s@[i as int]);
        }
        return None;
    }
    proof {
        assert(s@.skip(i as int)[0] == s@[i as int]);
        assert(s@.skip(i as int).drop_first() =~= s@.skip(i as int + 1));
    }
    let r1 = e_skip_ws(s, i + 1);
    if r1 < s.len() {
        let c = s[r1];
        proof {
            assert(s@.skip(r1 as int)[0] == c);
        }
        if c == ']' {
            let items: Vec<Vec<char>> = Vec::new();
            proof {
                assert(s@.skip(r1 as int).drop_first() =~= s@.skip(r1 as int + 1));
                assert(items.deep_view() =~= Seq::<Seq<char>>::empty());
            }
            return Some((items, r1 + 1));
        }
    }
    e_parse_array_items(s, r1)
}

/// Parses a value at position `i`.
fn e_parse_value(s: &Vec<char>, i: usize) -> (r: Option<(JsonValue, usize)>)
    requires
        i <= s@.len(),
    ensures
        (match r {
            Some(p) => i <= p.1 && p.1 <= s@.len() && parse_value(s@.skip(i as int)) == Some(
                (p.0@, s@.skip(p.1 as int)),
            ),
            None => parse_value(s@.skip(i as int)) is None,
        }),
{
    if i == s.len() {
        return None;
    }
    let c = s[i];
    proof {
        assert(s@.skip(i as int)[0] == c);
    }
    if c == '"' {
        match e_parse_string(s, i) {
            Some((t, j)) => Some((JsonValue::Str(t), j)),
            None => None,
        }
    } else if c == '[' {
        match e_parse_array(s, i) {
            Some((a, j)) => Some((JsonValue::Arr(a), j)),
            None => None,
        }
    } else if c == 'n' {
        if s.len() - i >= 4 {
            proof {
                assert(s@.skip(i as int)[1] == s@[i as int + 1]);
                assert(s@.skip(i as int)[2] == s@[i as int + 2]);
                assert(s@.skip(i as int)[3] == s@[i as int + 3]);
            }
            if s[i + 1] == 'u' && s[i + 2] == 'l' && s[i + 3] == 'l' {
                proof {
                    assert(s@.skip(i as int).skip(4) =~= s@.skip(i as int + 4));
                }
                Some((JsonValue::Null, i + 4))
            } else {
                None
            }
        } else {
            None
        }
    } else {
        None
    }
}

/// Parses one object member at position `i`.
fn e_parse_member(s: &Vec<char>, i: usize) -> (r: Option<((Vec<char>, JsonValue), usize)>)
    requires
        i <= s@.len(),
    ensures
        (match r {
            Some(p) => i <= p.1 && p.1 <= s@.len() && parse_member(s@.skip(i as int)) == Some(
                ((p.0.0@, p.0.1@), s@.skip(p.1 as int)),
            ),
            None => parse_member(s@.skip(i as int)) is None,
        }),
{
    let (k, r1) = match e_parse_string(s, i) {
        Some(p) => p,
        None => {
            return None;
        },
    };
    let r2 = e_skip_ws(s, r1);
    if r2 == s.len() {
        return None;
    }
    let c = s[r2];
    proof {
        assert(s@.skip(r2 as int)[0] == c);
    }
    if c != ':' {
        return None;
    }
    proof {
        assert(s@.skip(r2 as int).drop_first() =~= s@.skip(r2 as int + 1));
    }
    let r3 = e_skip_ws(s, r2 + 1);
    match e_parse_value(s, r3) {
        Some((v, j)) => Some(((k, v), j)),
        None => None,
    }
}

/// Parses the members of a non-empty object at position `i`.
fn e_parse_members(s: &Vec<char>, i: usize) -> (r: Option<(Vec<(Vec<char>, JsonValue)>, usize)>)
    requires
        i <= s@.len(),
    ensures
        (match r {
            Some(p) => i <= p.1 && p.1 <= s@.len() && parse_members(s@.skip(i as int)) == Some(
                (pairs_view(p.0@), s@.skip(p.1 as int)),
            ),
            None => parse_members(s@.skip(i as int)) is None,
        }),
    decreases s@.len() - i,
{
    let (m, r1) = match e_parse_member(s, i) {
        Some(p) => p,
        None => {
            return None;
        },
    };
    let r2 = e_skip_ws(s, r1);
    if r2 == s.len() {
        return None;
    }
    let c = s[r2];
    proof {
        assert(s@.skip(r2 as int)[0] == c);
    }
    if c == '}' {
        let ghost mv = (m.0@, m.1@);
        let mut ms: Vec<(Vec<char>, JsonValue)> = Vec::new();
        ms.push(m);
        proof {
            assert(s@.skip(r2 as int).drop_first() =~= s@.skip(r2 as int + 1));
            assert(pairs_view(ms@) =~= seq![mv]);
        }
        return Some((ms, r2 + 1));
    }
    if c == ',' {
        proof {
            assert(s@.skip(r2 as int).drop_first() =~= s@.skip(r2 as int + 1));
        }
        let r3 = e_skip_ws(s, r2 + 1);
        match e_parse_members(s, r3) {
            Some((ms_rec, j)) => {
                let ghost mv = (m.0@, m.1@);
                let mut ms = ms_rec;
                let ghost pv = pairs_view(ms@);
                ms.insert(0, m);
                proof {
                    assert forall|q: int| 0 <= q < pairs_view(ms@).len() implies pairs_view(ms@)[q]
                        == (seq![mv] + pv)[q] by {
                    }
                    assert(pairs_view(ms@) =~= seq![mv] + pv);
                }
                Some((ms, j))
            },
            None => None,
        }
    } else {
        None
    }
}

/// Parses an object at position `i`, whitespace allowed first.
fn e_parse_object(s: &Vec<char>, i: usize) -> (r: Option<(Vec<(Vec<char>, JsonValue)>, usize)>)
    requires
        i <= s@.len(),
    ensures
        (match r {
            Some(p) => i <= p.1 && p.1 <= s@.len() && parse_object(s@.skip(i as int)) == Some(
                (pairs_view(p.0@), s@.skip(p.1 as int)),
            ),
            None => parse_object(s@.skip(i as int)) is None,
        }),
{
    let s0 = e_skip_ws(s, i);
    if s0 == s.len() {
        return None;
    }
    let c = s[s0];
    proof {
        assert(s@.skip(s0 as int)[0] == c);
    }
    if c != '{' {
        return None;
    }
    proof {
        assert(s@.skip(s0 as int).drop_first() =~= s@.skip(s0 as int + 1));
    }
    let r1 = e_skip_ws(s, s0 + 1);
    if r1 < s.len() {
        let c1 = s[r1];
        proof {
            assert(s@.skip(r1 as int)[0] == c1);
        }
        if c1 == '}' {
            proof {
                assert(s@.skip(r1 as int).drop_first() =~= s@.skip(r1 as int + 1));
                assert(pairs_view(Seq::<(Vec<char>, JsonValue)>::empty()) =~= Seq::<
                    (Seq<char>, JsonValueView),
                >::empty());
            }
            let ms: Vec<(Vec<char>, JsonValue)> = Vec::new();
            return Some((ms, r1 + 1));
        }
    }
    e_parse_members(s, r1)
}

/// Parses a whole document: one object and trailing whitespace only.
pub(crate) fn e_parse_document(s: &Vec<char>) -> (r: Option<Vec<(Vec<char>, JsonValue)>>)
    ensures
        (match r {
            Some(ms) => parse_document(s@) == Some(pairs_view(ms@)),
            None => parse_document(s@) is None,
        }),
{
    proof {
        assert(s@.skip(0) =~= s@);
    }
    let (ms, rest) = match e_parse_object(s, 0) {
        Some(p) => p,
        None => {
            return None;
        },
    };
    let j = e_skip_ws(s, rest);
    if j == s.len() {
        proof {
            assert(skip_ws(s@.skip(rest as int)).len() == 0);
        }
        Some(ms)
    } else {
        proof {
            assert(skip_ws(s@.skip(rest as int)).len() != 0);
        }
        None
    }
}

/// Finds the first member with the given key, searching from `i` on.
pub(crate) fn e_lookup(ms: &Vec<(Vec<char>, JsonValue)>, i: usize, key: &str) -> (r: Option<usize>)
    requires
        i <= ms@.len(),
    ensures
        (match r {
            Some(k) => i <= k && k < ms@.len() && lookup(pairs_view(ms@).skip(i as int), key@)
                == Some(ms@[k as int].1@),
            None => lookup(pairs_view(ms@).skip(i as int), key@) is None,
        }),
    decreases ms@.len() - i,
{
    if i == ms.len() {
        return None;
    }
    proof {
        assert(pairs_view(ms@).skip(i as int)[0] == pairs_view(ms@)[i as int]);
        assert(pairs_view(ms@)[i as int] == (ms@[i as int].0@, ms@[i as int].1@));
    }
    if is_lit(&ms[i].0, key) {
        return Some(i);
    }
    proof {
        assert(pairs_view(ms@).skip(i as int).drop_first() =~= pairs_view(ms@).skip(i as int + 1));
    }
    e_lookup(ms, i + 1, key)
}

} // verus!
