use crate::text::{chars_to_string, string_to_chars};
use vstd::prelude::*;

verus! {

// ------------------------------------------------------------------
// The value type and its mathematical view
// ------------------------------------------------------------------

/// A JSON value as the envelope codec handles it.
///
/// A string holds its unescaped text. A number is kept as its raw token,
/// so that a value read off the wire can be written back unchanged and a
/// numeric field is only interpreted where the envelope needs its value.
/// An object is a sequence of key/value pairs in their textual order.
#[derive(Debug, PartialEq)]
pub enum JsonValue {
    Null,
    Bool(bool),
    Num(String),
    Str(String),
    Arr(Vec<JsonValue>),
    Obj(Vec<(String, JsonValue)>),
}

/// The mathematical shape of a `JsonValue`: the same tree over `Seq<char>`.
#[verifier::ext_equal]
pub ghost enum JsonV {
    Null,
    Bool(bool),
    Num(Seq<char>),
    Str(Seq<char>),
    Arr(Seq<JsonV>),
    Obj(Seq<(Seq<char>, JsonV)>),
}

pub open spec fn view_json(j: JsonValue) -> JsonV
    decreases j,
{
    match j {
        JsonValue::Null => JsonV::Null,
        JsonValue::Bool(b) => JsonV::Bool(b),
        JsonValue::Num(s) => JsonV::Num(s@),
        JsonValue::Str(s) => JsonV::Str(s@),
        JsonValue::Arr(es) => JsonV::Arr(view_json_seq(es@)),
        JsonValue::Obj(fs) => JsonV::Obj(view_json_fields(fs@)),
    }
}

pub open spec fn view_json_seq(s: Seq<JsonValue>) -> Seq<JsonV>
    decreases s,
{
    if s.len() == 0 {
        Seq::empty()
    } else {
        seq![view_json(s[0])] + view_json_seq(s.drop_first())
    }
}

pub open spec fn view_json_fields(s: Seq<(String, JsonValue)>) -> Seq<(Seq<char>, JsonV)>
    decreases s,
{
    if s.len() == 0 {
        Seq::empty()
    } else {
        seq![(s[0].0@, view_json(s[0].1))] + view_json_fields(s.drop_first())
    }
}

impl View for JsonValue {
    type V = JsonV;

    open spec fn view(&self) -> JsonV {
        view_json(*self)
    }
}

pub broadcast proof fn lemma_view_json_seq(s: Seq<JsonValue>)
    ensures
        (#[trigger] view_json_seq(s)).len() == s.len(),
        forall|i: int| 0 <= i < s.len() ==> view_json_seq(s)[i] == view_json(s[i]),
    decreases s.len(),
{
    if s.len() > 0 {
        lemma_view_json_seq(s.drop_first());
    }
}

pub broadcast proof fn lemma_view_json_fields(s: Seq<(String, JsonValue)>)
    ensures
        (#[trigger] view_json_fields(s)).len() == s.len(),
        forall|i: int|
            0 <= i < s.len() ==> view_json_fields(s)[i] == (s[i].0@, view_json(s[i].1)),
    decreases s.len(),
{
    if s.len() > 0 {
        lemma_view_json_fields(s.drop_first());
    }
}

// ------------------------------------------------------------------
// Character classes and well-formedness
// ------------------------------------------------------------------

pub open spec fn is_ws_char(c: char) -> bool {
    c == ' ' || c == '\n' || c == '\r' || c == '\t'
}

pub open spec fn is_digit_char(c: char) -> bool {
    '0' <= c && c <= '9'
}

/// The characters a number token may consist of.
pub open spec fn is_num_char(c: char) -> bool {
    is_digit_char(c) || c == '-' || c == '+' || c == '.' || c == 'e' || c == 'E'
}

/// The characters a number token may start with.
pub open spec fn is_num_start(c: char) -> bool {
    is_digit_char(c) || c == '-'
}

/// A character that may stand unescaped inside a string literal.
pub open spec fn is_raw_str_char(c: char) -> bool {
    c != '"' && c != '\\' && (c as u32) >= 0x20
}

/// A character the printer knows how to put into a string literal:
/// everything but the control characters below the space, except the
/// three whitespace controls that have short escapes.
pub open spec fn wf_str_char(c: char) -> bool {
    (c as u32) >= 0x20 || c == '\n' || c == '\r' || c == '\t'
}

pub open spec fn wf_text(s: Seq<char>) -> bool {
    forall|i: int| 0 <= i < s.len() ==> wf_str_char(#[trigger] s[i])
}

/// A printable number token: nonempty, starting like a number, made of
/// number characters only.
pub open spec fn wf_num_token(s: Seq<char>) -> bool {
    &&& s.len() > 0
    &&& is_num_start(s[0])
    &&& forall|i: int| 0 <= i < s.len() ==> is_num_char(#[trigger] s[i])
}

/// A value the printer can lay out so that the parser reads it back:
/// number tokens look like numbers, and strings carry no control
/// characters besides the three with short escapes.
pub open spec fn wf_json(j: JsonV) -> bool
    decreases j,
{
    match j {
        JsonV::Null => true,
        JsonV::Bool(_) => true,
        JsonV::Num(s) => wf_num_token(s),
        JsonV::Str(s) => wf_text(s),
        JsonV::Arr(es) => forall|i: int| 0 <= i < es.len() ==> wf_json(#[trigger] es[i]),
        JsonV::Obj(fs) => forall|i: int|
            0 <= i < fs.len() ==> wf_text((#[trigger] fs[i]).0) && wf_json(fs[i].1),
    }
}

// ------------------------------------------------------------------
// The printer
// ------------------------------------------------------------------

/// How a single string character is laid out inside a string literal.
pub open spec fn spec_escape_char(c: char) -> Seq<char> {
    if c == '"' {
        seq!['\\', '"']
    } else if c == '\\' {
        seq!['\\', '\\']
    } else if c == '\n' {
        seq!['\\', 'n']
    } else if c == '\r' {
        seq!['\\', 'r']
    } else if c == '\t' {
        seq!['\\', 't']
    } else {
        seq![c]
    }
}

pub open spec fn spec_escape(s: Seq<char>) -> Seq<char>
    decreases s.len(),
{
    if s.len() == 0 {
        Seq::empty()
    } else {
        spec_escape_char(s[0]) + spec_escape(s.drop_first())
    }
}

/// The canonical text of a value: no whitespace, keys and elements in
/// their stored order.
pub open spec fn spec_print(j: JsonV) -> Seq<char>
    decreases j, 1int,
{
    match j {
        JsonV::Null => seq!['n', 'u', 'l', 'l'],
        JsonV::Bool(b) => if b {
            seq!['t', 'r', 'u', 'e']
        } else {
            seq!['f', 'a', 'l', 's', 'e']
        },
        JsonV::Num(s) => s,
        JsonV::Str(s) => seq!['"'] + spec_escape(s) + seq!['"'],
        JsonV::Arr(es) => seq!['['] + spec_print_items(es) + seq![']'],
        JsonV::Obj(fs) => seq!['{'] + spec_print_members(fs) + seq!['}'],
    }
}

pub open spec fn spec_print_items(es: Seq<JsonV>) -> Seq<char>
    decreases es, 0int,
{
    if es.len() == 0 {
        Seq::empty()
    } else if es.len() == 1 {
        spec_print(es[0])
    } else {
        spec_print(es[0]) + seq![','] + spec_print_items(es.drop_first())
    }
}

pub open spec fn spec_print_member(m: (Seq<char>, JsonV)) -> Seq<char>
    decreases m, 2int,
{
    seq!['"'] + spec_escape(m.0) + seq!['"', ':'] + spec_print(m.1)
}

pub open spec fn spec_print_members(fs: Seq<(Seq<char>, JsonV)>) -> Seq<char>
    decreases fs, 0int,
{
    if fs.len() == 0 {
        Seq::empty()
    } else if fs.len() == 1 {
        spec_print_member(fs[0])
    } else {
        spec_print_member(fs[0]) + seq![','] + spec_print_members(fs.drop_first())
    }
}

// ------------------------------------------------------------------
// The parser, as a specification
// ------------------------------------------------------------------

/// The input with its leading whitespace removed.
pub open spec fn spec_skip_ws(s: Seq<char>) -> Seq<char>
    decreases s.len(),
{
    if s.len() > 0 && is_ws_char(s[0]) {
        spec_skip_ws(s.drop_first())
    } else {
        s
    }
}

pub proof fn lemma_skip_ws_len(s: Seq<char>)
    ensures
        spec_skip_ws(s).len() <= s.len(),
    decreases s.len(),
{
    if s.len() > 0 && is_ws_char(s[0]) {
        lemma_skip_ws_len(s.drop_first());
    }
}

/// The character an escape sequence `\c` stands for, if `\c` is one the
/// grammar accepts.
pub open spec fn spec_unescape_char(c: char) -> Option<char> {
    if c == '"' {
        Some('"')
    } else if c == '\\' {
        Some('\\')
    } else if c == '/' {
        Some('/')
    } else if c == 'n' {
        Some('\n')
    } else if c == 'r' {
        Some('\r')
    } else if c == 't' {
        Some('\t')
    } else {
        None
    }
}

/// The parse of a string literal's body, entered just after the opening
/// quote; on success, the unescaped text and the input after the closing
/// quote.
pub open spec fn spec_parse_str_body(s: Seq<char>) -> Option<(Seq<char>, Seq<char>)>
    decreases s.len(),
{
    if s.len() == 0 {
        None
    } else if s[0] == '"' {
        Some((Seq::empty(), s.drop_first()))
    } else if s[0] == '\\' {
        if s.len() >= 2 {
            match spec_unescape_char(s[1]) {
                Some(c) => match spec_parse_str_body(s.skip(2)) {
                    Some((t, r)) => Some((seq![c] + t, r)),
                    None => None,
                },
                None => None,
            }
        } else {
            None
        }
    } else if is_raw_str_char(s[0]) {
        match spec_parse_str_body(s.drop_first()) {
            Some((t, r)) => Some((seq![s[0]] + t, r)),
            None => None,
        }
    } else {
        None
    }
}

/// The longest prefix of number characters, and what follows it.
pub open spec fn spec_take_num(s: Seq<char>) -> (Seq<char>, Seq<char>)
    decreases s.len(),
{
    if s.len() > 0 && is_num_char(s[0]) {
        let (t, r) = spec_take_num(s.drop_first());
        (seq![s[0]] + t, r)
    } else {
        (Seq::empty(), s)
    }
}

/// The parse of one value, leading whitespace allowed; on success, the
/// value and the input right after it.
///
/// The length guards only measure the recursion; they hold of every
/// reachable call, since parsing never lengthens its input.
pub open spec fn spec_parse_value(s: Seq<char>) -> Option<(JsonV, Seq<char>)>
    decreases s.len(), 0int,
{
    let t = spec_skip_ws(s);
    if t.len() == 0 {
        None
    } else if t[0] == 'n' {
        if t.len() >= 4 && t[1] == 'u' && t[2] == 'l' && t[3] == 'l' {
            Some((JsonV::Null, t.skip(4)))
        } else {
            None
        }
    } else if t[0] == 't' {
        if t.len() >= 4 && t[1] == 'r' && t[2] == 'u' && t[3] == 'e' {
            Some((JsonV::Bool(true), t.skip(4)))
        } else {
            None
        }
    } else if t[0] == 'f' {
        if t.len() >= 5 && t[1] == 'a' && t[2] == 'l' && t[3] == 's' && t[4] == 'e' {
            Some((JsonV::Bool(false), t.skip(5)))
        } else {
            None
        }
    } else if t[0] == '"' {
        match spec_parse_str_body(t.drop_first()) {
            Some((txt, r)) => Some((JsonV::Str(txt), r)),
            None => None,
        }
    } else if t[0] == '[' {
        let u = spec_skip_ws(t.drop_first());
        if u.len() < s.len() {
            if u.len() > 0 && u[0] == ']' {
                Some((JsonV::Arr(Seq::empty()), u.drop_first()))
            } else {
                match spec_parse_items(u) {
                    Some((es, r)) => Some((JsonV::Arr(es), r)),
                    None => None,
                }
            }
        } else {
            None
        }
    } else if t[0] == '{' {
        let u = spec_skip_ws(t.drop_first());
        if u.len() < s.len() {
            if u.len() > 0 && u[0] == '}' {
                Some((JsonV::Obj(Seq::empty()), u.drop_first()))
            } else {
                match spec_parse_members(u) {
                    Some((fs, r)) => Some((JsonV::Obj(fs), r)),
                    None => None,
                }
            }
        } else {
            None
        }
    } else if is_num_start(t[0]) {
        let (tok, r) = spec_take_num(t);
        Some((JsonV::Num(tok), r))
    } else {
        None
    }
}

/// The parse of one or more comma-separated array elements followed by the
/// closing bracket.
pub open spec fn spec_parse_items(s: Seq<char>) -> Option<(Seq<JsonV>, Seq<char>)>
    decreases s.len(), 1int,
{
    match spec_parse_value(s) {
        Some((v, r)) => {
            let r1 = spec_skip_ws(r);
            if r1.len() > 0 && r1[0] == ',' {
                if r1.len() <= s.len() {
                    match spec_parse_items(r1.drop_first()) {
                        Some((vs, r2)) => Some((seq![v] + vs, r2)),
                        None => None,
                    }
                } else {
                    None
                }
            } else if r1.len() > 0 && r1[0] == ']' {
                Some((seq![v], r1.drop_first()))
            } else {
                None
            }
        },
        None => None,
    }
}

/// The parse of one or more `"key": value` members followed by the closing
/// brace.
pub open spec fn spec_parse_members(s: Seq<char>) -> Option<(Seq<(Seq<char>, JsonV)>, Seq<char>)>
    decreases s.len(), 1int,
{
    let t = spec_skip_ws(s);
    if t.len() > s.len() {
        None
    } else if t.len() > 0 && t[0] == '"' {
        match spec_parse_str_body(t.drop_first()) {
            Some((key, r0)) => {
                let r1 = spec_skip_ws(r0);
                if r1.len() > 0 && r1[0] == ':' && r1.len() <= s.len() {
                    match spec_parse_value(r1.drop_first()) {
                        Some((v, r2)) => {
                            let r3 = spec_skip_ws(r2);
                            if r3.len() > 0 && r3[0] == ',' {
                                if r3.len() <= s.len() {
                                    match spec_parse_members(r3.drop_first()) {
                                        Some((fs, r4)) => Some((seq![(key, v)] + fs, r4)),
                                        None => None,
                                    }
                                } else {
                                    None
                                }
                            } else if r3.len() > 0 && r3[0] == '}' {
                                Some((seq![(key, v)], r3.drop_first()))
                            } else {
                                None
                            }
                        },
                        None => None,
                    }
                } else {
                    None
                }
            },
            None => None,
        }
    } else {
        None
    }
}

/// The parse of a complete text: one value, whitespace around it allowed,
/// covering the whole input.
pub open spec fn spec_parse_text(s: Seq<char>) -> Option<JsonV> {
    match spec_parse_value(s) {
        Some((v, r)) => if spec_skip_ws(r).len() == 0 {
            Some(v)
        } else {
            None
        },
        None => None,
    }
}

// ------------------------------------------------------------------
// The round trip: parsing a printed value gives the value back
// ------------------------------------------------------------------

/// The characters a printed value can start with.
pub open spec fn is_value_start(c: char) -> bool {
    c == 'n' || c == 't' || c == 'f' || c == '"' || c == '[' || c == '{' || is_num_start(c)
}

/// What may follow a printed value for the parser to stop exactly at its
/// end: nothing, or one of the closing separators of the grammar.
pub open spec fn is_value_boundary(s: Seq<char>) -> bool {
    s.len() == 0 || s[0] == ',' || s[0] == ']' || s[0] == '}'
}

/// A printed value is never empty, and its first character announces a
/// value: in particular it is no whitespace and no separator.
pub proof fn lemma_print_first(j: JsonV)
    requires
        wf_json(j),
    ensures
        spec_print(j).len() > 0,
        is_value_start(spec_print(j)[0]),
{
    match j {
        JsonV::Num(s) => {
            assert(spec_print(j)[0] == s[0]);
        },
        _ => {},
    }
}

pub proof fn lemma_parse_print_str_body(txt: Seq<char>, rest: Seq<char>)
    requires
        wf_text(txt),
    ensures
        spec_parse_str_body(spec_escape(txt) + seq!['"'] + rest) == Some((txt, rest)),
    decreases txt.len(),
{
    let s = spec_escape(txt) + seq!['"'] + rest;
    if txt.len() == 0 {
        assert(spec_escape(txt) == Seq::<char>::empty());
        assert(s =~= seq!['"'] + rest);
        assert(s.drop_first() =~= rest);
        assert(txt =~= Seq::<char>::empty());
    } else {
        let c = txt[0];
        let tail = txt.drop_first();
        assert(wf_str_char(c));
        assert(wf_text(tail)) by {
            assert(forall|i: int|
                0 <= i < tail.len() ==> #[trigger] tail[i] == txt[i + 1] && wf_str_char(txt[i + 1]));
        }
        assert(spec_escape(txt) == spec_escape_char(c) + spec_escape(tail));
        lemma_parse_print_str_body(tail, rest);
        let srec = spec_escape(tail) + seq!['"'] + rest;
        if c == '"' || c == '\\' || c == '\n' || c == '\r' || c == '\t' {
            let e: char = if c == '"' {
                '"'
            } else if c == '\\' {
                '\\'
            } else if c == '\n' {
                'n'
            } else if c == '\r' {
                'r'
            } else {
                't'
            };
            assert(spec_escape_char(c) == seq!['\\', e]);
            assert(s =~= seq!['\\', e] + srec);
            assert(s[0] == '\\' && s[1] == e);
            assert(spec_unescape_char(e) == Some(c));
            assert(s.skip(2) =~= srec);
            assert(seq![c] + tail =~= txt);
        } else {
            assert(spec_escape_char(c) == seq![c]);
            assert(s =~= seq![c] + srec);
            assert(s[0] == c);
            assert((c as u32) >= 0x20);
            assert(is_raw_str_char(c));
            assert(s.drop_first() =~= srec);
            assert(seq![c] + tail =~= txt);
        }
    }
}

pub proof fn lemma_take_num_token(tok: Seq<char>, rest: Seq<char>)
    requires
        forall|i: int| 0 <= i < tok.len() ==> is_num_char(#[trigger] tok[i]),
        rest.len() == 0 || !is_num_char(rest[0]),
    ensures
        spec_take_num(tok + rest) == (tok, rest),
    decreases tok.len(),
{
    let s = tok + rest;
    if tok.len() == 0 {
        assert(s =~= rest);
        if s.len() > 0 {
            assert(!is_num_char(s[0]));
        }
        assert(tok =~= Seq::<char>::empty());
    } else {
        assert(s[0] == tok[0]);
        let tail = tok.drop_first();
        assert(forall|i: int|
            0 <= i < tail.len() ==> #[trigger] tail[i] == tok[i + 1] && is_num_char(tok[i + 1]));
        lemma_take_num_token(tail, rest);
        assert(s.drop_first() =~= tail + rest);
        assert(seq![tok[0]] + tail =~= tok);
    }
}

/// Parsing the canonical text of a well-formed value, followed by nothing
/// or by a separator, gives exactly that value back and consumes exactly
/// its text.
pub proof fn lemma_parse_print(j: JsonV, rest: Seq<char>)
    requires
        wf_json(j),
        is_value_boundary(rest),
    ensures
        spec_parse_value(spec_print(j) + rest) == Some((j, rest)),
    decreases j,
{
    let s = spec_print(j) + rest;
    lemma_print_first(j);
    assert(s[0] == spec_print(j)[0]);
    assert(!is_ws_char(s[0]));
    assert(spec_skip_ws(s) == s);
    match j {
        JsonV::Null => {
            assert(s.skip(4) =~= rest);
        },
        JsonV::Bool(b) => {
            if b {
                assert(s.skip(4) =~= rest);
            } else {
                assert(s.skip(5) =~= rest);
            }
        },
        JsonV::Num(tok) => {
            lemma_take_num_token(tok, rest);
            assert(s =~= tok + rest);
        },
        JsonV::Str(txt) => {
            assert(s =~= seq!['"'] + (spec_escape(txt) + seq!['"'] + rest));
            assert(s.drop_first() =~= spec_escape(txt) + seq!['"'] + rest);
            lemma_parse_print_str_body(txt, rest);
        },
        JsonV::Arr(es) => {
            if es.len() == 0 {
                assert(spec_print_items(es) == Seq::<char>::empty());
                assert(s.drop_first() =~= seq![']'] + rest);
                let u = spec_skip_ws(s.drop_first());
                assert(u == s.drop_first());
                assert(u.len() < s.len());
                assert(u[0] == ']');
                assert(u.drop_first() =~= rest);
                assert(es =~= Seq::<JsonV>::empty());
            } else {
                let body = spec_print_items(es) + seq![']'] + rest;
                assert(s.drop_first() =~= body);
                lemma_parse_print_items(es, rest);
                lemma_print_first(es[0]);
                assert(body[0] == spec_print(es[0])[0]) by {
                    assert(spec_print_items(es)[0] == spec_print(es[0])[0]);
                }
                assert(!is_ws_char(body[0]));
                let u = spec_skip_ws(body);
                assert(u == body);
                assert(u.len() < s.len());
                assert(u[0] != ']');
            }
        },
        JsonV::Obj(fs) => {
            if fs.len() == 0 {
                assert(spec_print_members(fs) == Seq::<char>::empty());
                assert(s.drop_first() =~= seq!['}'] + rest);
                let u = spec_skip_ws(s.drop_first());
                assert(u == s.drop_first());
                assert(u.len() < s.len());
                assert(u[0] == '}');
                assert(u.drop_first() =~= rest);
                assert(fs =~= Seq::<(Seq<char>, JsonV)>::empty());
            } else {
                let body = spec_print_members(fs) + seq!['}'] + rest;
                assert(s.drop_first() =~= body);
                lemma_parse_print_members(fs, rest);
                assert(body[0] == '"') by {
                    assert(spec_print_members(fs)[0] == spec_print_member(fs[0])[0]);
                    assert(spec_print_member(fs[0])[0] == '"');
                }
                assert(!is_ws_char(body[0]));
                let u = spec_skip_ws(body);
                assert(u == body);
                assert(u.len() < s.len());
                assert(u[0] != '}');
            }
        },
    }
}

/// Parsing the printed elements of a nonempty array, the closing bracket
/// appended, gives the elements back.
pub proof fn lemma_parse_print_items(es: Seq<JsonV>, rest: Seq<char>)
    requires
        es.len() >= 1,
        forall|i: int| 0 <= i < es.len() ==> wf_json(#[trigger] es[i]),
        is_value_boundary(rest),
    ensures
        spec_parse_items(spec_print_items(es) + seq![']'] + rest) == Some((es, rest)),
    decreases es,
{
    let s = spec_print_items(es) + seq![']'] + rest;
    if es.len() == 1 {
        let rest1 = seq![']'] + rest;
        assert(s =~= spec_print(es[0]) + rest1);
        lemma_parse_print(es[0], rest1);
        assert(spec_parse_value(s) == Some((es[0], rest1)));
        assert(spec_skip_ws(rest1) == rest1);
        assert(rest1[0] == ']');
        assert(rest1.drop_first() =~= rest);
        assert(seq![es[0]] =~= es);
    } else {
        let tail = es.drop_first();
        assert(forall|i: int|
            0 <= i < tail.len() ==> #[trigger] tail[i] == es[i + 1] && wf_json(es[i + 1]));
        let rest1 = seq![','] + (spec_print_items(tail) + seq![']'] + rest);
        assert(spec_print_items(es) == spec_print(es[0]) + seq![','] + spec_print_items(tail));
        assert(s =~= spec_print(es[0]) + rest1);
        lemma_parse_print(es[0], rest1);
        assert(spec_parse_value(s) == Some((es[0], rest1)));
        assert(spec_skip_ws(rest1) == rest1);
        assert(rest1[0] == ',');
        assert(rest1.len() <= s.len());
        assert(rest1.drop_first() =~= spec_print_items(tail) + seq![']'] + rest);
        lemma_parse_print_items(tail, rest);
        assert(seq![es[0]] + tail =~= es);
    }
}

/// Parsing the printed members of a nonempty object, the closing brace
/// appended, gives the members back.
pub proof fn lemma_parse_print_members(fs: Seq<(Seq<char>, JsonV)>, rest: Seq<char>)
    requires
        fs.len() >= 1,
        forall|i: int| 0 <= i < fs.len() ==> wf_text((#[trigger] fs[i]).0) && wf_json(fs[i].1),
        is_value_boundary(rest),
    ensures
        spec_parse_members(spec_print_members(fs) + seq!['}'] + rest) == Some((fs, rest)),
    decreases fs,
{
    let s = spec_print_members(fs) + seq!['}'] + rest;
    let key = fs[0].0;
    let v = fs[0].1;
    assert(s[0] == '"') by {
        assert(spec_print_members(fs)[0] == spec_print_member(fs[0])[0]);
        assert(spec_print_member(fs[0])[0] == '"');
    }
    assert(spec_skip_ws(s) == s);
    let tail2: Seq<char> = if fs.len() == 1 {
        seq!['}'] + rest
    } else {
        seq![','] + (spec_print_members(fs.drop_first()) + seq!['}'] + rest)
    };
    assert(spec_print_member(fs[0]) == seq!['"'] + spec_escape(key) + seq!['"', ':'] + spec_print(
        v,
    ));
    if fs.len() == 1 {
        assert(spec_print_members(fs) == spec_print_member(fs[0]));
        assert(s =~= seq!['"'] + (spec_escape(key) + seq!['"'] + (seq![':'] + (spec_print(v)
            + tail2))));
    } else {
        assert(spec_print_members(fs) == spec_print_member(fs[0]) + seq![',']
            + spec_print_members(fs.drop_first()));
        assert(s =~= seq!['"'] + (spec_escape(key) + seq!['"'] + (seq![':'] + (spec_print(v)
            + tail2))));
    }
    assert(s[0] == '"');
    assert(s.drop_first() =~= spec_escape(key) + seq!['"'] + (seq![':'] + (spec_print(v)
        + tail2)));
    lemma_parse_print_str_body(key, seq![':'] + (spec_print(v) + tail2));
    let r0 = seq![':'] + (spec_print(v) + tail2);
    assert(spec_parse_str_body(s.drop_first()) == Some((key, r0)));
    assert(spec_skip_ws(r0) == r0);
    assert(r0[0] == ':');
    assert(r0.len() <= s.len());
    assert(r0.drop_first() =~= spec_print(v) + tail2);
    assert(is_value_boundary(tail2));
    lemma_parse_print(v, tail2);
    assert(spec_parse_value(r0.drop_first()) == Some((v, tail2)));
    assert(spec_skip_ws(tail2) == tail2);
    if fs.len() == 1 {
        assert(tail2[0] == '}');
        assert(tail2.drop_first() =~= rest);
        assert(seq![(key, v)] =~= fs);
    } else {
        let tail = fs.drop_first();
        assert(forall|i: int|
            0 <= i < tail.len() ==> #[trigger] tail[i] == fs[i + 1] && wf_text(fs[i + 1].0)
                && wf_json(fs[i + 1].1));
        assert(tail2[0] == ',');
        assert(tail2.len() <= s.len());
        assert(tail2.drop_first() =~= spec_print_members(tail) + seq!['}'] + rest);
        lemma_parse_print_members(tail, rest);
        assert(seq![(key, v)] + tail =~= fs);
    }
}

/// The round trip at the level of whole texts: the canonical text of a
/// well-formed value parses back to exactly that value.
pub proof fn lemma_parse_print_text(j: JsonV)
    requires
        wf_json(j),
    ensures
        spec_parse_text(spec_print(j)) == Some(j),
{
    lemma_parse_print(j, Seq::empty());
    assert(spec_print(j) + Seq::<char>::empty() =~= spec_print(j));
    assert(spec_skip_ws(Seq::<char>::empty()).len() == 0);
}

// ------------------------------------------------------------------
// What the parser yields is printable again
// ------------------------------------------------------------------

proof fn lemma_parse_str_body_wf(s: Seq<char>)
    ensures
        match spec_parse_str_body(s) {
            Some(p) => wf_text(p.0),
            None => true,
        },
    decreases s.len(),
{
    if s.len() == 0 {
    } else if s[0] == '"' {
    } else if s[0] == '\\' {
        if s.len() >= 2 {
            match spec_unescape_char(s[1]) {
                Some(c) => {
                    assert(wf_str_char(c));
                    lemma_parse_str_body_wf(s.skip(2));
                    match spec_parse_str_body(s.skip(2)) {
                        Some((t, _)) => {
                            let whole = seq![c] + t;
                            assert(forall|i: int|
                                0 <= i < whole.len() ==> wf_str_char(#[trigger] whole[i]));
                        },
                        None => {},
                    }
                },
                None => {},
            }
        }
    } else if is_raw_str_char(s[0]) {
        lemma_parse_str_body_wf(s.drop_first());
        match spec_parse_str_body(s.drop_first()) {
            Some((t, _)) => {
                let whole = seq![s[0]] + t;
                assert(forall|i: int| 0 <= i < whole.len() ==> wf_str_char(#[trigger] whole[i]));
            },
            None => {},
        }
    }
}

proof fn lemma_take_num_wf(s: Seq<char>)
    ensures
        forall|i: int|
            0 <= i < spec_take_num(s).0.len() ==> is_num_char(#[trigger] spec_take_num(s).0[i]),
        s.len() > 0 && is_num_char(s[0]) ==> spec_take_num(s).0.len() > 0 && spec_take_num(
            s,
        ).0[0] == s[0],
    decreases s.len(),
{
    if s.len() > 0 && is_num_char(s[0]) {
        lemma_take_num_wf(s.drop_first());
        let whole = seq![s[0]] + spec_take_num(s.drop_first()).0;
        assert(forall|i: int| 0 <= i < whole.len() ==> is_num_char(#[trigger] whole[i]));
    }
}

/// Whatever the parser reads back is itself printable: parsed number
/// tokens look like numbers and parsed strings carry no stray control
/// characters.
pub proof fn lemma_parse_value_wf(s: Seq<char>)
    ensures
        match spec_parse_value(s) {
            Some(p) => wf_json(p.0),
            None => true,
        },
    decreases s.len(), 0int,
{
    let t = spec_skip_ws(s);
    if t.len() == 0 {
    } else if t[0] == 'n' || t[0] == 't' || t[0] == 'f' {
    } else if t[0] == '"' {
        lemma_parse_str_body_wf(t.drop_first());
    } else if t[0] == '[' {
        let u = spec_skip_ws(t.drop_first());
        if u.len() < s.len() {
            if u.len() > 0 && u[0] == ']' {
                let es = Seq::<JsonV>::empty();
                assert(forall|i: int| 0 <= i < es.len() ==> wf_json(#[trigger] es[i]));
            } else {
                lemma_parse_items_wf(u);
            }
        }
    } else if t[0] == '{' {
        let u = spec_skip_ws(t.drop_first());
        if u.len() < s.len() {
            if u.len() > 0 && u[0] == '}' {
                let fs = Seq::<(Seq<char>, JsonV)>::empty();
                assert(forall|i: int|
                    0 <= i < fs.len() ==> wf_text((#[trigger] fs[i]).0) && wf_json(fs[i].1));
            } else {
                lemma_parse_members_wf(u);
            }
        }
    } else if is_num_start(t[0]) {
        lemma_take_num_wf(t);
    }
}

proof fn lemma_parse_items_wf(s: Seq<char>)
    ensures
        match spec_parse_items(s) {
            Some(p) => forall|i: int| 0 <= i < p.0.len() ==> wf_json(#[trigger] p.0[i]),
            None => true,
        },
    decreases s.len(), 1int,
{
    lemma_parse_value_wf(s);
    match spec_parse_value(s) {
        Some((v, r)) => {
            let r1 = spec_skip_ws(r);
            if r1.len() > 0 && r1[0] == ',' && r1.len() <= s.len() {
                lemma_parse_items_wf(r1.drop_first());
                match spec_parse_items(r1.drop_first()) {
                    Some((vs, _)) => {
                        let whole = seq![v] + vs;
                        assert(forall|i: int|
                            0 <= i < whole.len() ==> wf_json(#[trigger] whole[i]));
                    },
                    None => {},
                }
            }
        },
        None => {},
    }
}

proof fn lemma_parse_members_wf(s: Seq<char>)
    ensures
        match spec_parse_members(s) {
            Some(p) => forall|i: int|
                0 <= i < p.0.len() ==> wf_text((#[trigger] p.0[i]).0) && wf_json(p.0[i].1),
            None => true,
        },
    decreases s.len(), 1int,
{
    let t = spec_skip_ws(s);
    if t.len() <= s.len() && t.len() > 0 && t[0] == '"' {
        lemma_parse_str_body_wf(t.drop_first());
        match spec_parse_str_body(t.drop_first()) {
            Some((key, r0)) => {
                let r1 = spec_skip_ws(r0);
                if r1.len() > 0 && r1[0] == ':' && r1.len() <= s.len() {
                    lemma_parse_value_wf(r1.drop_first());
                    match spec_parse_value(r1.drop_first()) {
                        Some((v, r2)) => {
                            let r3 = spec_skip_ws(r2);
                            if r3.len() > 0 && r3[0] == ',' && r3.len() <= s.len() {
                                lemma_parse_members_wf(r3.drop_first());
                                match spec_parse_members(r3.drop_first()) {
                                    Some((fs, _)) => {
                                        let whole = seq![(key, v)] + fs;
                                        assert(forall|i: int|
                                            0 <= i < whole.len() ==> wf_text(
                                                (#[trigger] whole[i]).0,
                                            ) && wf_json(whole[i].1));
                                    },
                                    None => {},
                                }
                            } else if r3.len() > 0 && r3[0] == '}' {
                                let whole = seq![(key, v)];
                                assert(forall|i: int|
                                    0 <= i < whole.len() ==> wf_text((#[trigger] whole[i]).0)
                                        && wf_json(whole[i].1));
                            }
                        },
                        None => {},
                    }
                }
            },
            None => {},
        }
    }
}

/// A whole parsed text is printable again.
pub proof fn lemma_parse_text_wf(s: Seq<char>)
    ensures
        match spec_parse_text(s) {
            Some(j) => wf_json(j),
            None => true,
        },
{
    lemma_parse_value_wf(s);
}

// ------------------------------------------------------------------
// The printer, executable
// ------------------------------------------------------------------

fn write_chars(cs: &Vec<char>, out: &mut Vec<char>)
    ensures
        final(out)@ == old(out)@ + cs@,
{
    let mut k: usize = 0;
    while k < cs.len()
        invariant
            k <= cs.len(),
            out@ == old(out)@ + cs@.take(k as int),
        decreases cs.len() - k,
    {
        out.push(cs[k]);
        k = k + 1;
        assert(cs@.take(k as int) =~= cs@.take(k - 1).push(cs@[k - 1]));
        assert(out@ =~= old(out)@ + cs@.take(k as int));
    }
    assert(cs@.take(cs@.len() as int) =~= cs@);
}

proof fn lemma_escape_push(s: Seq<char>, c: char)
    ensures
        spec_escape(s.push(c)) == spec_escape(s) + spec_escape_char(c),
    decreases s.len(),
{
    if s.len() == 0 {
        assert(s.push(c)[0] == c);
        assert(s.push(c).drop_first() =~= Seq::<char>::empty());
        assert(spec_escape(Seq::<char>::empty()) == Seq::<char>::empty());
        assert(spec_escape(s.push(c)) == spec_escape_char(c) + Seq::<char>::empty());
        assert(spec_escape_char(c) + Seq::<char>::empty() =~= spec_escape_char(c));
        assert(spec_escape(s) + spec_escape_char(c) =~= spec_escape_char(c));
    } else {
        assert(s.push(c)[0] == s[0]);
        assert(s.push(c).drop_first() =~= s.drop_first().push(c));
        lemma_escape_push(s.drop_first(), c);
        assert(spec_escape_char(s[0]) + (spec_escape(s.drop_first()) + spec_escape_char(c))
            =~= (spec_escape_char(s[0]) + spec_escape(s.drop_first())) + spec_escape_char(c));
    }
}

fn write_escaped(cs: &Vec<char>, out: &mut Vec<char>)
    ensures
        final(out)@ == old(out)@ + spec_escape(cs@),
{
    let mut k: usize = 0;
    while k < cs.len()
        invariant
            k <= cs.len(),
            out@ == old(out)@ + spec_escape(cs@.take(k as int)),
        decreases cs.len() - k,
    {
        let c = cs[k];
        if c == '"' {
            out.push('\\');
            out.push('"');
        } else if c == '\\' {
            out.push('\\');
            out.push('\\');
        } else if c == '\n' {
            out.push('\\');
            out.push('n');
        } else if c == '\r' {
            out.push('\\');
            out.push('r');
        } else if c == '\t' {
            out.push('\\');
            out.push('t');
        } else {
            out.push(c);
        }
        proof {
            lemma_escape_push(cs@.take(k as int), c);
            assert(cs@.take(k + 1) =~= cs@.take(k as int).push(cs@[k as int]));
            assert(out@ =~= old(out)@ + spec_escape(cs@.take(k as int)) + spec_escape_char(c));
        }
        k = k + 1;
    }
    assert(cs@.take(cs@.len() as int) =~= cs@);
}

/// Lay out one value as its canonical text, appended to `out`.
fn write_json(j: &JsonValue, out: &mut Vec<char>)
    ensures
        final(out)@ == old(out)@ + spec_print(view_json(*j)),
    decreases *j, 0int,
{
    match j {
        JsonValue::Null => {
            out.push('n');
            out.push('u');
            out.push('l');
            out.push('l');
            assert(out@ =~= old(out)@ + spec_print(JsonV::Null));
        },
        JsonValue::Bool(b) => {
            if *b {
                out.push('t');
                out.push('r');
                out.push('u');
                out.push('e');
                assert(out@ =~= old(out)@ + spec_print(JsonV::Bool(true)));
            } else {
                out.push('f');
                out.push('a');
                out.push('l');
                out.push('s');
                out.push('e');
                assert(out@ =~= old(out)@ + spec_print(JsonV::Bool(false)));
            }
        },
        JsonValue::Num(s) => {
            let cs = string_to_chars(s.as_str());
            write_chars(&cs, out);
        },
        JsonValue::Str(s) => {
            out.push('"');
            let cs = string_to_chars(s.as_str());
            write_escaped(&cs, out);
            out.push('"');
            assert(out@ =~= old(out)@ + (seq!['"'] + spec_escape(s@) + seq!['"']));
        },
        JsonValue::Arr(es) => {
            out.push('[');
            if es.len() > 0 {
                write_items(es, 0, out);
                assert(view_json_seq(es@).skip(0) =~= view_json_seq(es@));
            } else {
                assert(view_json_seq(es@) =~= Seq::<JsonV>::empty());
            }
            out.push(']');
            assert(out@ =~= old(out)@ + (seq!['['] + spec_print_items(view_json_seq(es@))
                + seq![']']));
        },
        JsonValue::Obj(fs) => {
            out.push('{');
            if fs.len() > 0 {
                write_members(fs, 0, out);
                assert(view_json_fields(fs@).skip(0) =~= view_json_fields(fs@));
            } else {
                assert(view_json_fields(fs@) =~= Seq::<(Seq<char>, JsonV)>::empty());
            }
            out.push('}');
            assert(out@ =~= old(out)@ + (seq!['{'] + spec_print_members(view_json_fields(fs@))
                + seq!['}']));
        },
    }
}

/// Lay out the elements of `es` from index `k` on, separated by commas.
fn write_items(es: &Vec<JsonValue>, k: usize, out: &mut Vec<char>)
    requires
        k < es.len(),
    ensures
        final(out)@ == old(out)@ + spec_print_items(view_json_seq(es@).skip(k as int)),
    decreases *es, es.len() - k,
{
    broadcast use lemma_view_json_seq;

    let ghost vs = view_json_seq(es@);
    write_json(&es[k], out);
    if k + 1 < es.len() {
        out.push(',');
        write_items(es, k + 1, out);
        proof {
            assert(vs.skip(k as int).len() >= 2);
            assert(vs.skip(k as int)[0] == view_json(es@[k as int]));
            assert(vs.skip(k as int).drop_first() =~= vs.skip(k + 1));
            assert(out@ =~= old(out)@ + (spec_print(vs.skip(k as int)[0]) + seq![',']
                + spec_print_items(vs.skip(k as int).drop_first())));
        }
    } else {
        proof {
            assert(vs.skip(k as int).len() == 1);
            assert(vs.skip(k as int)[0] == view_json(es@[k as int]));
            assert(spec_print_items(vs.skip(k as int)) == spec_print(vs.skip(k as int)[0]));
        }
    }
}

/// Lay out the members of `fs` from index `k` on, separated by commas.
fn write_members(fs: &Vec<(String, JsonValue)>, k: usize, out: &mut Vec<char>)
    requires
        k < fs.len(),
    ensures
        final(out)@ == old(out)@ + spec_print_members(view_json_fields(fs@).skip(k as int)),
    decreases *fs, fs.len() - k,
{
    broadcast use lemma_view_json_fields;

    let ghost ms = view_json_fields(fs@);
    out.push('"');
    let cs = string_to_chars(fs[k].0.as_str());
    write_escaped(&cs, out);
    out.push('"');
    out.push(':');
    write_json(&fs[k].1, out);
    proof {
        assert(ms.skip(k as int)[0] == (fs@[k as int].0@, view_json(fs@[k as int].1)));
        assert(out@ =~= old(out)@ + spec_print_member(ms.skip(k as int)[0]));
    }
    if k + 1 < fs.len() {
        out.push(',');
        write_members(fs, k + 1, out);
        proof {
            assert(ms.skip(k as int).len() >= 2);
            assert(ms.skip(k as int).drop_first() =~= ms.skip(k + 1));
            assert(out@ =~= old(out)@ + (spec_print_member(ms.skip(k as int)[0]) + seq![',']
                + spec_print_members(ms.skip(k as int).drop_first())));
        }
    } else {
        proof {
            assert(ms.skip(k as int).len() == 1);
            assert(spec_print_members(ms.skip(k as int)) == spec_print_member(
                ms.skip(k as int)[0],
            ));
        }
    }
}

/// The canonical text of a value.
pub fn print_json(j: &JsonValue) -> (s: String)
    ensures
        s@ == spec_print(j@),
{
    let mut out: Vec<char> = Vec::new();
    write_json(j, &mut out);
    chars_to_string(&out)
}

// ------------------------------------------------------------------
// The parser, executable
// ------------------------------------------------------------------

fn is_ws_exec(c: char) -> (b: bool)
    ensures
        b == is_ws_char(c),
{
    c == ' ' || c == '\n' || c == '\r' || c == '\t'
}

fn is_num_char_exec(c: char) -> (b: bool)
    ensures
        b == is_num_char(c),
{
    ('0' <= c && c <= '9') || c == '-' || c == '+' || c == '.' || c == 'e' || c == 'E'
}

fn is_num_start_exec(c: char) -> (b: bool)
    ensures
        b == is_num_start(c),
{
    ('0' <= c && c <= '9') || c == '-'
}

fn unescape_exec(c: char) -> (r: Option<char>)
    ensures
        r == spec_unescape_char(c),
{
    if c == '"' {
        Some('"')
    } else if c == '\\' {
        Some('\\')
    } else if c == '/' {
        Some('/')
    } else if c == 'n' {
        Some('\n')
    } else if c == 'r' {
        Some('\r')
    } else if c == 't' {
        Some('\t')
    } else {
        None
    }
}

/// The index right after the whitespace that starts at `i`.
fn skip_ws_exec(text: &Vec<char>, i: usize) -> (j: usize)
    requires
        i <= text.len(),
    ensures
        i <= j <= text.len(),
        spec_skip_ws(text@.skip(i as int)) == text@.skip(j as int),
{
    let mut k: usize = i;
    while k < text.len() && is_ws_exec(text[k])
        invariant
            i <= k <= text.len(),
            spec_skip_ws(text@.skip(i as int)) == spec_skip_ws(text@.skip(k as int)),
        decreases text.len() - k,
    {
        proof {
            assert(text@.skip(k as int)[0] == text@[k as int]);
            assert(text@.skip(k as int).drop_first() =~= text@.skip(k + 1));
        }
        k = k + 1;
    }
    proof {
        if k < text.len() {
            assert(text@.skip(k as int)[0] == text@[k as int]);
        }
        assert(spec_skip_ws(text@.skip(k as int)) == text@.skip(k as int));
    }
    k
}

/// The body of a string literal, entered right after the opening quote.
fn parse_str_body_exec(text: &Vec<char>, i: usize) -> (r: Option<(Vec<char>, usize)>)
    requires
        i <= text.len(),
    ensures
        match r {
            Some(p) => i <= p.1 <= text.len() && spec_parse_str_body(text@.skip(i as int))
                == Some((p.0@, text@.skip(p.1 as int))),
            None => spec_parse_str_body(text@.skip(i as int)) is None,
        },
{
    let mut acc: Vec<char> = Vec::new();
    let mut k: usize = i;
    loop
        invariant
            i <= k <= text.len(),
            spec_parse_str_body(text@.skip(i as int)) == (match spec_parse_str_body(
                text@.skip(k as int),
            ) {
                Some(p) => Some((acc@ + p.0, p.1)),
                None => None::<(Seq<char>, Seq<char>)>,
            }),
        decreases text.len() - k,
    {
        if k == text.len() {
            proof {
                assert(text@.skip(k as int).len() == 0);
            }
            return None;
        }
        let c = text[k];
        proof {
            assert(text@.skip(k as int)[0] == text@[k as int]);
        }
        if c == '"' {
            proof {
                assert(text@.skip(k as int).drop_first() =~= text@.skip(k + 1));
                assert(acc@ + Seq::<char>::empty() =~= acc@);
            }
            return Some((acc, k + 1));
        } else if c == '\\' {
            if text.len() - k < 2 {
                proof {
                    assert(text@.skip(k as int).len() < 2);
                }
                return None;
            }
            let d = text[k + 1];
            proof {
                assert(text@.skip(k as int)[1] == text@[k + 1]);
            }
            match unescape_exec(d) {
                Some(e) => {
                    let ghost acc0 = acc@;
                    let ghost k0 = k as int;
                    proof {
                        assert(text@.skip(k0).skip(2) =~= text@.skip(k0 + 2));
                    }
                    acc.push(e);
                    k = k + 2;
                    proof {
                        let m = spec_parse_str_body(text@.skip(k as int));
                        if m is Some {
                            let p = m->Some_0;
                            assert(acc0 + (seq![e] + p.0) =~= acc@ + p.0);
                        }
                    }
                },
                None => {
                    return None;
                },
            }
        } else if c != '"' && c != '\\' && (c as u32) >= 0x20 {
            let ghost acc0 = acc@;
            let ghost k0 = k as int;
            proof {
                assert(is_raw_str_char(c));
                assert(text@.skip(k0).drop_first() =~= text@.skip(k0 + 1));
            }
            acc.push(c);
            k = k + 1;
            proof {
                let m = spec_parse_str_body(text@.skip(k as int));
                if m is Some {
                    let p = m->Some_0;
                    assert(acc0 + (seq![c] + p.0) =~= acc@ + p.0);
                }
            }
        } else {
            return None;
        }
    }
}

/// The longest run of number characters starting at `i`.
fn take_num_exec(text: &Vec<char>, i: usize) -> (r: (Vec<char>, usize))
    requires
        i <= text.len(),
    ensures
        i <= r.1 <= text.len(),
        spec_take_num(text@.skip(i as int)) == (r.0@, text@.skip(r.1 as int)),
{
    let mut acc: Vec<char> = Vec::new();
    let mut k: usize = i;
    while k < text.len() && is_num_char_exec(text[k])
        invariant
            i <= k <= text.len(),
            spec_take_num(text@.skip(i as int)) == (
                acc@ + spec_take_num(text@.skip(k as int)).0,
                spec_take_num(text@.skip(k as int)).1,
            ),
        decreases text.len() - k,
    {
        let c = text[k];
        let ghost acc0 = acc@;
        let ghost k0 = k as int;
        proof {
            assert(text@.skip(k0)[0] == text@[k0]);
            assert(text@.skip(k0).drop_first() =~= text@.skip(k0 + 1));
        }
        acc.push(c);
        k = k + 1;
        proof {
            assert(acc0 + (seq![c] + spec_take_num(text@.skip(k as int)).0) =~= acc@
                + spec_take_num(text@.skip(k as int)).0);
        }
    }
    proof {
        if k < text.len() {
            assert(text@.skip(k as int)[0] == text@[k as int]);
        }
        assert(spec_take_num(text@.skip(k as int)) == (Seq::<char>::empty(), text@.skip(k as int)));
        assert(acc@ + Seq::<char>::empty() =~= acc@);
    }
    (acc, k)
}

/// One value, leading whitespace allowed, starting at `i`; on success the
/// value and the index right after it.
pub fn parse_value_exec(text: &Vec<char>, i: usize) -> (r: Option<(JsonValue, usize)>)
    requires
        i <= text.len(),
    ensures
        match r {
            Some(p) => i <= p.1 <= text.len() && spec_parse_value(text@.skip(i as int))
                == Some((p.0@, text@.skip(p.1 as int))),
            None => spec_parse_value(text@.skip(i as int)) is None,
        },
    decreases text.len() - i, 0int,
{
    let ghost s = text@.skip(i as int);
    let j0 = skip_ws_exec(text, i);
    let ghost t = text@.skip(j0 as int);
    if j0 == text.len() {
        return None;
    }
    let c = text[j0];
    proof {
        assert(t[0] == text@[j0 as int]);
    }
    if c == 'n' {
        if text.len() - j0 >= 4 && text[j0 + 1] == 'u' && text[j0 + 2] == 'l' && text[j0 + 3]
            == 'l' {
            proof {
                assert(t[1] == text@[j0 + 1] && t[2] == text@[j0 + 2] && t[3] == text@[j0 + 3]);
                assert(t.skip(4) =~= text@.skip(j0 + 4));
            }
            Some((JsonValue::Null, j0 + 4))
        } else {
            proof {
                if t.len() >= 4 {
                    assert(t[1] == text@[j0 + 1] && t[2] == text@[j0 + 2] && t[3] == text@[j0
                        + 3]);
                }
            }
            None
        }
    } else if c == 't' {
        if text.len() - j0 >= 4 && text[j0 + 1] == 'r' && text[j0 + 2] == 'u' && text[j0 + 3]
            == 'e' {
            proof {
                assert(t[1] == text@[j0 + 1] && t[2] == text@[j0 + 2] && t[3] == text@[j0 + 3]);
                assert(t.skip(4) =~= text@.skip(j0 + 4));
            }
            Some((JsonValue::Bool(true), j0 + 4))
        } else {
            proof {
                if t.len() >= 4 {
                    assert(t[1] == text@[j0 + 1] && t[2] == text@[j0 + 2] && t[3] == text@[j0
                        + 3]);
                }
            }
            None
        }
    } else if c == 'f' {
        if text.len() - j0 >= 5 && text[j0 + 1] == 'a' && text[j0 + 2] == 'l' && text[j0 + 3]
            == 's' && text[j0 + 4] == 'e' {
            proof {
                assert(t[1] == text@[j0 + 1] && t[2] == text@[j0 + 2] && t[3] == text@[j0 + 3]
                    && t[4] == text@[j0 + 4]);
                assert(t.skip(5) =~= text@.skip(j0 + 5));
            }
            Some((JsonValue::Bool(false), j0 + 5))
        } else {
            proof {
                if t.len() >= 5 {
                    assert(t[1] == text@[j0 + 1] && t[2] == text@[j0 + 2] && t[3] == text@[j0 + 3]
                        && t[4] == text@[j0 + 4]);
                }
            }
            None
        }
    } else if c == '"' {
        proof {
            assert(t.drop_first() =~= text@.skip(j0 + 1));
        }
        match parse_str_body_exec(text, j0 + 1) {
            Some((content, j)) => {
                let txt = chars_to_string(&content);
                Some((JsonValue::Str(txt), j))
            },
            None => None,
        }
    } else if c == '[' {
        proof {
            assert(t.drop_first() =~= text@.skip(j0 + 1));
        }
        let u = skip_ws_exec(text, j0 + 1);
        let ghost useq = text@.skip(u as int);
        proof {
            assert(useq.len() < s.len());
            if u < text.len() {
                assert(useq[0] == text@[u as int]);
            }
        }
        if u < text.len() && text[u] == ']' {
            proof {
                assert(useq.drop_first() =~= text@.skip(u + 1));
                assert(view_json_seq(Seq::<JsonValue>::empty()) == Seq::<JsonV>::empty());
            }
            Some((JsonValue::Arr(Vec::new()), u + 1))
        } else {
            match parse_items_exec(text, u) {
                Some((vs, j)) => Some((JsonValue::Arr(vs), j)),
                None => None,
            }
        }
    } else if c == '{' {
        proof {
            assert(t.drop_first() =~= text@.skip(j0 + 1));
        }
        let u = skip_ws_exec(text, j0 + 1);
        let ghost useq = text@.skip(u as int);
        proof {
            assert(useq.len() < s.len());
            if u < text.len() {
                assert(useq[0] == text@[u as int]);
            }
        }
        if u < text.len() && text[u] == '}' {
            proof {
                assert(useq.drop_first() =~= text@.skip(u + 1));
                assert(view_json_fields(Seq::<(String, JsonValue)>::empty())
                    == Seq::<(Seq<char>, JsonV)>::empty());
            }
            Some((JsonValue::Obj(Vec::new()), u + 1))
        } else {
            match parse_members_exec(text, u) {
                Some((fs, j)) => Some((JsonValue::Obj(fs), j)),
                None => None,
            }
        }
    } else if is_num_start_exec(c) {
        let (tok, j) = take_num_exec(text, j0);
        let toks = chars_to_string(&tok);
        Some((JsonValue::Num(toks), j))
    } else {
        None
    }
}

/// One or more comma-separated elements and the closing bracket.
fn parse_items_exec(text: &Vec<char>, i: usize) -> (r: Option<(Vec<JsonValue>, usize)>)
    requires
        i <= text.len(),
    ensures
        match r {
            Some(p) => i <= p.1 <= text.len() && spec_parse_items(text@.skip(i as int))
                == Some((view_json_seq(p.0@), text@.skip(p.1 as int))),
            None => spec_parse_items(text@.skip(i as int)) is None,
        },
    decreases text.len() - i, 1int,
{
    broadcast use lemma_view_json_seq;

    let ghost s = text@.skip(i as int);
    match parse_value_exec(text, i) {
        Some((v, j1)) => {
            let j2 = skip_ws_exec(text, j1);
            let ghost r1 = text@.skip(j2 as int);
            proof {
                assert(r1.len() <= s.len());
                if j2 < text.len() {
                    assert(r1[0] == text@[j2 as int]);
                }
            }
            if j2 < text.len() && text[j2] == ',' {
                proof {
                    assert(r1.drop_first() =~= text@.skip(j2 + 1));
                }
                match parse_items_exec(text, j2 + 1) {
                    Some((mut vs, j3)) => {
                        vs.insert(0, v);
                        proof {
                            assert(vs@ =~= seq![vs@[0]] + vs@.drop_first());
                            assert(view_json_seq(vs@) =~= seq![view_json(vs@[0])]
                                + view_json_seq(vs@.drop_first()));
                        }
                        Some((vs, j3))
                    },
                    None => None,
                }
            } else if j2 < text.len() && text[j2] == ']' {
                proof {
                    assert(r1.drop_first() =~= text@.skip(j2 + 1));
                }
                let mut vs: Vec<JsonValue> = Vec::new();
                vs.push(v);
                proof {
                    assert(view_json_seq(vs@) =~= seq![view_json(vs@[0])]);
                }
                Some((vs, j2 + 1))
            } else {
                None
            }
        },
        None => None,
    }
}

/// One or more `"key": value` members and the closing brace.
fn parse_members_exec(text: &Vec<char>, i: usize) -> (r: Option<(Vec<(String, JsonValue)>, usize)>)
    requires
        i <= text.len(),
    ensures
        match r {
            Some(p) => i <= p.1 <= text.len() && spec_parse_members(text@.skip(i as int))
                == Some((view_json_fields(p.0@), text@.skip(p.1 as int))),
            None => spec_parse_members(text@.skip(i as int)) is None,
        },
    decreases text.len() - i, 1int,
{
    broadcast use lemma_view_json_fields;

    let ghost s = text@.skip(i as int);
    let i0 = skip_ws_exec(text, i);
    let ghost t = text@.skip(i0 as int);
    proof {
        assert(t.len() <= s.len());
    }
    if i0 == text.len() {
        return None;
    }
    proof {
        assert(t[0] == text@[i0 as int]);
    }
    if text[i0] != '"' {
        return None;
    }
    proof {
        assert(t.drop_first() =~= text@.skip(i0 + 1));
    }
    match parse_str_body_exec(text, i0 + 1) {
        Some((key_chars, j1)) => {
            let j2 = skip_ws_exec(text, j1);
            let ghost r1 = text@.skip(j2 as int);
            proof {
                assert(r1.len() <= s.len());
                if j2 < text.len() {
                    assert(r1[0] == text@[j2 as int]);
                }
            }
            if j2 < text.len() && text[j2] == ':' {
                proof {
                    assert(r1.drop_first() =~= text@.skip(j2 + 1));
                }
                match parse_value_exec(text, j2 + 1) {
                    Some((v, j3)) => {
                        let j4 = skip_ws_exec(text, j3);
                        let ghost r3 = text@.skip(j4 as int);
                        proof {
                            assert(r3.len() <= s.len());
                            if j4 < text.len() {
                                assert(r3[0] == text@[j4 as int]);
                            }
                        }
                        let key = chars_to_string(&key_chars);
                        if j4 < text.len() && text[j4] == ',' {
                            proof {
                                assert(r3.drop_first() =~= text@.skip(j4 + 1));
                            }
                            match parse_members_exec(text, j4 + 1) {
                                Some((mut fs, j5)) => {
                                    fs.insert(0, (key, v));
                                    proof {
                                        assert(fs@ =~= seq![fs@[0]] + fs@.drop_first());
                                        assert(view_json_fields(fs@) =~= seq![
                                            (fs@[0].0@, view_json(fs@[0].1)),
                                        ] + view_json_fields(fs@.drop_first()));
                                    }
                                    Some((fs, j5))
                                },
                                None => None,
                            }
                        } else if j4 < text.len() && text[j4] == '}' {
                            proof {
                                assert(r3.drop_first() =~= text@.skip(j4 + 1));
                            }
                            let mut fs: Vec<(String, JsonValue)> = Vec::new();
                            fs.push((key, v));
                            proof {
                                assert(view_json_fields(fs@) =~= seq![
                                    (fs@[0].0@, view_json(fs@[0].1)),
                                ]);
                            }
                            Some((fs, j4 + 1))
                        } else {
                            None
                        }
                    },
                    None => None,
                }
            } else {
                None
            }
        },
        None => None,
    }
}

/// The parse of a complete text: one value covering the whole input,
/// whitespace around it allowed.
pub fn parse_json_text(text: &Vec<char>) -> (r: Option<JsonValue>)
    ensures
        match r {
            Some(v) => spec_parse_text(text@) == Some(v@),
            None => spec_parse_text(text@) is None,
        },
{
    proof {
        assert(text@.skip(0) =~= text@);
    }
    match parse_value_exec(text, 0) {
        Some((v, j)) => {
            let j2 = skip_ws_exec(text, j);
            if j2 == text.len() {
                proof {
                    assert(text@.skip(j2 as int).len() == 0);
                }
                Some(v)
            } else {
                proof {
                    assert(text@.skip(j2 as int).len() > 0);
                }
                None
            }
        },
        None => None,
    }
}

} // verus!
