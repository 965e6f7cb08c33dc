//! A closed JSON document model.
//!
//! Tool parameter schemas, tool-call inputs and the open-ended extension
//! map of a source request are JSON documents. The library holds them in
//! its own model type so that the transforms over them can be verified;
//! number literals are carried verbatim as text, so no numeric precision
//! is lost in translation.

use vstd::prelude::*;
use crate::text::{chars_of, string_from_chars};

verus! {

/// A JSON value. Object members keep their order; a number is kept as
/// the literal text it was written with.
pub enum Json {
    Null,
    Bool(bool),
    Num(String),
    Str(String),
    Arr(Vec<Json>),
    Obj(Vec<(String, Json)>),
}

/// The mathematical shape of a [`Json`] value.
#[verifier::ext_equal]
pub enum JsonV {
    Null,
    Bool(bool),
    Num(Seq<char>),
    Str(Seq<char>),
    Arr(Seq<JsonV>),
    Obj(Seq<(Seq<char>, JsonV)>),
}

pub open spec fn json_view(j: Json) -> JsonV
    decreases j, 1int,
{
    match j {
        Json::Null => JsonV::Null,
        Json::Bool(b) => JsonV::Bool(b),
        Json::Num(s) => JsonV::Num(s@),
        Json::Str(s) => JsonV::Str(s@),
        Json::Arr(v) => JsonV::Arr(json_seq_view(v@)),
        Json::Obj(m) => JsonV::Obj(json_members_view(m@)),
    }
}

pub open spec fn json_seq_view(s: Seq<Json>) -> Seq<JsonV>
    decreases s, 0int,
{
    if s.len() == 0 {
        Seq::empty()
    } else {
        seq![json_view(s[0])] + json_seq_view(s.drop_first())
    }
}

pub open spec fn json_members_view(s: Seq<(String, Json)>) -> Seq<(Seq<char>, JsonV)>
    decreases s, 0int,
{
    if s.len() == 0 {
        Seq::empty()
    } else {
        seq![(s[0].0@, json_view(s[0].1))] + json_members_view(s.drop_first())
    }
}

impl View for Json {
    type V = JsonV;

    open spec fn view(&self) -> JsonV {
        json_view(*self)
    }
}

pub proof fn lemma_json_seq_view_index(s: Seq<Json>)
    ensures
        json_seq_view(s).len() == s.len(),
        forall|i: int| 0 <= i < s.len() ==> json_seq_view(s)[i] == json_view(s[i]),
    decreases s.len(),
{
    if s.len() > 0 {
        lemma_json_seq_view_index(s.drop_first());
    }
}

pub proof fn lemma_json_members_view_index(s: Seq<(String, Json)>)
    ensures
        json_members_view(s).len() == s.len(),
        forall|i: int| 0 <= i < s.len() ==> json_members_view(s)[i] == (
        s[i].0@,
        json_view(s[i].1),
        ),
    decreases s.len(),
{
    if s.len() > 0 {
        lemma_json_members_view_index(s.drop_first());
    }
}

pub proof fn lemma_json_members_view_drop_first(s: Seq<(String, Json)>)
    requires
        s.len() > 0,
    ensures
        json_members_view(s.drop_first()) == json_members_view(s).drop_first(),
{
    lemma_json_members_view_index(s);
    lemma_json_members_view_index(s.drop_first());
    assert(json_members_view(s.drop_first()) =~= json_members_view(s).drop_first());
}

pub proof fn lemma_json_members_view_push(s: Seq<(String, Json)>, p: (String, Json))
    ensures
        json_members_view(s.push(p)) == json_members_view(s).push((p.0@, json_view(p.1))),
{
    lemma_json_members_view_index(s);
    lemma_json_members_view_index(s.push(p));
    assert(json_members_view(s.push(p)) =~= json_members_view(s).push((p.0@, json_view(p.1))));
}

/// The first member of an object with the given key, if any.
pub open spec fn spec_obj_get(ms: Seq<(Seq<char>, JsonV)>, key: Seq<char>) -> Option<JsonV>
    decreases ms.len(),
{
    if ms.len() == 0 {
        None
    } else if ms[0].0 == key {
        Some(ms[0].1)
    } else {
        spec_obj_get(ms.drop_first(), key)
    }
}

/// Looks a key up among an object's members, first match wins.
pub fn obj_get<'a>(ms: &'a Vec<(String, Json)>, key: &str) -> (r: Option<&'a Json>)
    ensures
        match r {
            Some(j) => spec_obj_get(json_members_view(ms@), key@) == Some(j@),
            None => spec_obj_get(json_members_view(ms@), key@) is None,
        },
{
    proof {
        lemma_json_members_view_index(ms@);
        assert(json_members_view(ms@).skip(0) =~= json_members_view(ms@));
    }
    for i in 0..ms.len()
        invariant
            forall|k: int|
                0 <= k < ms@.len() ==> json_members_view(ms@)[k] == (
                ms@[k].0@,
                json_view(ms@[k].1),
                ),
            json_members_view(ms@).len() == ms@.len(),
            forall|k: int| 0 <= k < i ==> ms@[k].0@ != key@,
            spec_obj_get(json_members_view(ms@), key@) == spec_obj_get(
                json_members_view(ms@).skip(i as int),
                key@,
            ),
    {
        proof {
            let mv = json_members_view(ms@);
            assert(mv.skip(i as int).len() == mv.len() - i);
            assert(mv.skip(i as int)[0] == mv[i as int]);
        }
        if str_is(&ms[i].0, key) {
            return Some(&ms[i].1);
        }
        proof {
            let mv = json_members_view(ms@);
            assert(mv.skip(i as int).drop_first() =~= mv.skip(i + 1));
        }
    }
    proof {
        let mv = json_members_view(ms@);
        assert(mv.skip(ms@.len() as int).len() == 0);
    }
    None
}

/// Whether a string parses as a JSON document.
pub uninterp spec fn is_json(s: Seq<char>) -> bool;

/// Relies on `serde_json::from_str::<serde_json::Value>`: whether a string
/// parses as a JSON document depends on its characters alone.
#[verifier::external_body]
pub fn json_parses(s: &str) -> (r: bool)
    ensures
        r == is_json(s@),
{
    serde_json::from_str::<serde_json::Value>(s).is_ok()
}

/// Whether a string equals a literal, compared by contents.
pub fn str_is(s: &String, lit: &str) -> (r: bool)
    ensures
        r == (s@ == lit@),
{
    let owned: String = lit.to_owned();
    *s == owned
}

/// The lower-case hexadecimal digit for a value below sixteen.
pub open spec fn spec_hex_digit(d: nat) -> char {
    if d < 10 {
        crate::text::spec_digit_char(d)
    } else if d == 10 {
        'a'
    } else if d == 11 {
        'b'
    } else if d == 12 {
        'c'
    } else if d == 13 {
        'd'
    } else if d == 14 {
        'e'
    } else {
        'f'
    }
}

/// How one character is written inside a JSON string literal: quotes and
/// backslashes are escaped, backspace, tab, line feed, form feed and
/// carriage return take their short escapes, any other control character
/// takes the `\u00XX` form, and every other character stands as itself.
pub open spec fn spec_escape_char(c: char) -> Seq<char> {
    if c == '"' {
        seq!['\\', '"']
    } else if c == '\\' {
        seq!['\\', '\\']
    } else if c == '\u{8}' {
        seq!['\\', 'b']
    } else if c == '\t' {
        seq!['\\', 't']
    } else if c == '\n' {
        seq!['\\', 'n']
    } else if c == '\u{c}' {
        seq!['\\', 'f']
    } else if c == '\r' {
        seq!['\\', 'r']
    } else if (c as u32) < 32 {
        seq!['\\', 'u', '0', '0', spec_hex_digit((c as u32 / 16) as nat), spec_hex_digit(
            (c as u32 % 16) as nat,
        )]
    } else {
        seq![c]
    }
}

/// A whole string escaped for a JSON string literal.
pub open spec fn spec_escape(s: Seq<char>) -> Seq<char>
    decreases s.len(),
{
    if s.len() == 0 {
        Seq::empty()
    } else {
        spec_escape(s.drop_last()) + spec_escape_char(s.last())
    }
}

/// The serialized text of a JSON value.
pub open spec fn spec_json_text(v: JsonV) -> Seq<char>
    decreases v, 1int,
{
    match v {
        JsonV::Null => "null"@,
        JsonV::Bool(b) => if b {
            "true"@
        } else {
            "false"@
        },
        JsonV::Num(s) => s,
        JsonV::Str(s) => seq!['"'] + spec_escape(s) + seq!['"'],
        JsonV::Arr(elems) => seq!['['] + spec_list_text(elems) + seq![']'],
        JsonV::Obj(members) => seq!['{'] + spec_members_text(members) + seq!['}'],
    }
}

/// The comma-separated texts of the elements of a JSON array.
pub open spec fn spec_list_text(s: Seq<JsonV>) -> Seq<char>
    decreases s, 0int,
{
    if s.len() == 0 {
        Seq::empty()
    } else {
        spec_list_text(s.drop_last()) + (if s.len() == 1 {
            Seq::empty()
        } else {
            seq![',']
        }) + spec_json_text(s.last())
    }
}

/// The comma-separated `"key":value` texts of the members of a JSON object.
pub open spec fn spec_members_text(s: Seq<(Seq<char>, JsonV)>) -> Seq<char>
    decreases s, 0int,
{
    if s.len() == 0 {
        Seq::empty()
    } else {
        spec_members_text(s.drop_last()) + (if s.len() == 1 {
            Seq::empty()
        } else {
            seq![',']
        }) + seq!['"'] + spec_escape(s.last().0) + seq!['"', ':'] + spec_json_text(s.last().1)
    }
}

fn hex_digit(d: u32) -> (c: char)
    requires
        d < 16,
    ensures
        c == spec_hex_digit(d as nat),
{
    if d == 0 {
        '0'
    } else if d == 1 {
        '1'
    } else if d == 2 {
        '2'
    } else if d == 3 {
        '3'
    } else if d == 4 {
        '4'
    } else if d == 5 {
        '5'
    } else if d == 6 {
        '6'
    } else if d == 7 {
        '7'
    } else if d == 8 {
        '8'
    } else if d == 9 {
        '9'
    } else if d == 10 {
        'a'
    } else if d == 11 {
        'b'
    } else if d == 12 {
        'c'
    } else if d == 13 {
        'd'
    } else if d == 14 {
        'e'
    } else {
        'f'
    }
}

/// Appends one character of a JSON string literal, escaped as
/// [`spec_escape_char`] says.
fn write_escaped_char(c: char, out: &mut Vec<char>)
    ensures
        final(out)@ == old(out)@ + spec_escape_char(c),
{
    if c == '"' {
        out.push('\\');
        out.push('"');
    } else if c == '\\' {
        out.push('\\');
        out.push('\\');
    } else if c == '\u{8}' {
        out.push('\\');
        out.push('b');
    } else if c == '\t' {
        out.push('\\');
        out.push('t');
    } else if c == '\n' {
        out.push('\\');
        out.push('n');
    } else if c == '\u{c}' {
        out.push('\\');
        out.push('f');
    } else if c == '\r' {
        out.push('\\');
        out.push('r');
    } else if (c as u32) < 32 {
        out.push('\\');
        out.push('u');
        out.push('0');
        out.push('0');
        out.push(hex_digit(c as u32 / 16));
        out.push(hex_digit(c as u32 % 16));
    } else {
        out.push(c);
    }
    assert(out@ =~= old(out)@ + spec_escape_char(c));
}

/// Appends a quoted, escaped JSON string literal.
fn write_string_literal(s: &String, out: &mut Vec<char>)
    ensures
        final(out)@ == old(out)@ + seq!['"'] + spec_escape(s@) + seq!['"'],
{
    let cs = chars_of(s.as_str());
    out.push('"');
    for i in 0..cs.len()
        invariant
            cs@ == s@,
            out@ == old(out)@ + seq!['"'] + spec_escape(s@.take(i as int)),
    {
        write_escaped_char(cs[i], out);
        proof {
            assert(s@.take(i + 1).drop_last() =~= s@.take(i as int));
            assert(s@.take(i + 1).last() == s@[i as int]);
        }
    }
    out.push('"');
    proof {
        assert(s@.take(s@.len() as int) =~= s@);
        assert(out@ =~= old(out)@ + seq!['"'] + spec_escape(s@) + seq!['"']);
    }
}

/// Appends the serialized text of a JSON value, exactly as
/// [`spec_json_text`] says.
pub fn write_json(j: &Json, out: &mut Vec<char>)
    ensures
        final(out)@ == old(out)@ + spec_json_text(j@),
    decreases j,
{
    match j {
        Json::Null => {
            out.push('n');
            out.push('u');
            out.push('l');
            out.push('l');
            proof {
                reveal_strlit("null");
                assert(out@ =~= old(out)@ + spec_json_text(j@));
            }
        },
        Json::Bool(b) => {
            if *b {
                out.push('t');
                out.push('r');
                out.push('u');
                out.push('e');
                proof {
                    reveal_strlit("true");
                    assert(out@ =~= old(out)@ + spec_json_text(j@));
                }
            } else {
                out.push('f');
                out.push('a');
                out.push('l');
                out.push('s');
                out.push('e');
                proof {
                    reveal_strlit("false");
                    assert(out@ =~= old(out)@ + spec_json_text(j@));
                }
            }
        },
        Json::Num(s) => {
            let cs = chars_of(s.as_str());
            for i in 0..cs.len()
                invariant
                    cs@ == s@,
                    out@ == old(out)@ + s@.take(i as int),
            {
                out.push(cs[i]);
                proof {
                    assert(out@ =~= old(out)@ + s@.take(i + 1));
                }
            }
            proof {
                assert(s@.take(s@.len() as int) =~= s@);
            }
        },
        Json::Str(s) => {
            write_string_literal(s, out);
        },
        Json::Arr(elems) => {
            out.push('[');
            proof {
                lemma_json_seq_view_index(elems@);
            }
            for i in 0..elems.len()
                invariant
                    *j == Json::Arr(*elems),
                    out@ == old(out)@ + seq!['['] + spec_list_text(json_seq_view(elems@).take(
                        i as int,
                    )),
                    json_seq_view(elems@).len() == elems@.len(),
                    forall|k: int|
                        0 <= k < elems@.len() ==> json_seq_view(elems@)[k] == json_view(elems@[k]),
            {
                if i > 0 {
                    out.push(',');
                }
                proof {
                    let jj = *j;
                    assert(jj == Json::Arr(*elems));
                    assert(decreases_to!(jj => jj->Arr_0));
                    assert(decreases_to!(jj->Arr_0 => jj->Arr_0@));
                    assert(decreases_to!(jj->Arr_0@ => jj->Arr_0@[i as int]));
                    assert(jj->Arr_0@[i as int] == elems@[i as int]);
                }
                write_json(&elems[i], out);
                proof {
                    let vs = json_seq_view(elems@);
                    assert(vs.take(i + 1).drop_last() =~= vs.take(i as int));
                    assert(vs.take(i + 1).last() == vs[i as int]);
                    assert(out@ =~= old(out)@ + seq!['['] + spec_list_text(vs.take(i + 1)));
                }
            }
            out.push(']');
            proof {
                let vs = json_seq_view(elems@);
                assert(vs.take(vs.len() as int) =~= vs);
                assert(out@ =~= old(out)@ + spec_json_text(j@));
            }
        },
        Json::Obj(members) => {
            out.push('{');
            proof {
                lemma_json_members_view_index(members@);
            }
            for i in 0..members.len()
                invariant
                    *j == Json::Obj(*members),
                    out@ == old(out)@ + seq!['{'] + spec_members_text(json_members_view(
                        members@,
                    ).take(i as int)),
                    json_members_view(members@).len() == members@.len(),
                    forall|k: int|
                        0 <= k < members@.len() ==> json_members_view(members@)[k] == (
                        members@[k].0@,
                        json_view(members@[k].1),
                        ),
            {
                if i > 0 {
                    out.push(',');
                }
                write_string_literal(&members[i].0, out);
                out.push(':');
                proof {
                    let jj = *j;
                    assert(jj == Json::Obj(*members));
                    assert(decreases_to!(jj => jj->Obj_0));
                    assert(decreases_to!(jj->Obj_0 => jj->Obj_0@));
                    assert(decreases_to!(jj->Obj_0@ => jj->Obj_0@[i as int]));
                    assert(decreases_to!(jj->Obj_0@[i as int] => jj->Obj_0@[i as int].1));
                    assert(jj->Obj_0@[i as int].1 == members@[i as int].1);
                }
                write_json(&members[i].1, out);
                proof {
                    let vs = json_members_view(members@);
                    assert(vs.take(i + 1).drop_last() =~= vs.take(i as int));
                    assert(vs.take(i + 1).last() == vs[i as int]);
                    assert(out@ =~= old(out)@ + seq!['{'] + spec_members_text(vs.take(i + 1)));
                }
            }
            out.push('}');
            proof {
                let vs = json_members_view(members@);
                assert(vs.take(vs.len() as int) =~= vs);
                assert(out@ =~= old(out)@ + spec_json_text(j@));
            }
        },
    }
}

/// Serializes a JSON value to its text.
pub fn json_string(j: &Json) -> (r: String)
    ensures
        r@ == spec_json_text(j@),
{
    let mut out: Vec<char> = Vec::new();
    write_json(j, &mut out);
    string_from_chars(&out)
}

} // verus!
