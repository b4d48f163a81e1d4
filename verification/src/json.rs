use vstd::prelude::*;

use crate::text::chars_string;
use crate::text::str_chars;

verus! {

/// A JSON value, the shape in which raw telemetry snapshots reach the
/// normalizer.
///
/// Numbers are kept as their literal source text: the library stores and
/// forwards them but never computes with them, and keeping the text preserves
/// the source's formatting exactly in the serialized payload.
pub enum JsonValue {
    Null,
    Bool(bool),
    /// The literal text of a JSON number, e.g. `-113.18`.
    Number(String),
    String(String),
    Array(Vec<JsonValue>),
    Object(Vec<(String, JsonValue)>),
}

/// The lowercase hexadecimal digit for `n`.
pub open spec fn hex_digit(n: int) -> char {
    if n == 0 {
        '0'
    } else if n == 1 {
        '1'
    } else if n == 2 {
        '2'
    } else if n == 3 {
        '3'
    } else if n == 4 {
        '4'
    } else if n == 5 {
        '5'
    } else if n == 6 {
        '6'
    } else if n == 7 {
        '7'
    } else if n == 8 {
        '8'
    } else if n == 9 {
        '9'
    } else if n == 10 {
        'a'
    } else if n == 11 {
        'b'
    } else if n == 12 {
        'c'
    } else if n == 13 {
        'd'
    } else if n == 14 {
        'e'
    } else {
        'f'
    }
}

/// How one character appears inside a JSON string literal: quote and
/// backslash are escaped, control characters use the short escapes or the
/// `\u00xx` form, and everything else stands as itself.
pub open spec fn escaped_char(c: char) -> Seq<char> {
    if c == '"' {
        seq!['\\', '"']
    } else if c == '\\' {
        seq!['\\', '\\']
    } else if c == '\u{8}' {
        seq!['\\', 'b']
    } else if c == '\u{9}' {
        seq!['\\', 't']
    } else if c == '\u{a}' {
        seq!['\\', 'n']
    } else if c == '\u{c}' {
        seq!['\\', 'f']
    } else if c == '\u{d}' {
        seq!['\\', 'r']
    } else if (c as u32) < 0x20 {
        seq!['\\', 'u', '0', '0', hex_digit(c as u32 as int / 16), hex_digit(c as u32 as int % 16)]
    } else {
        seq![c]
    }
}

/// The body of a JSON string literal: every character escaped as needed.
pub open spec fn escaped_text(s: Seq<char>) -> Seq<char>
    decreases s.len(),
{
    if s.len() == 0 {
        Seq::empty()
    } else {
        escaped_text(s.drop_last()) + escaped_char(s.last())
    }
}

/// A JSON string literal: the escaped text between double quotes.
pub open spec fn quoted_text(s: Seq<char>) -> Seq<char> {
    seq!['"'] + escaped_text(s) + seq!['"']
}

/// The serialized text of a JSON value.
pub open spec fn json_text(v: JsonValue) -> Seq<char>
    decreases v, 1int,
{
    match v {
        JsonValue::Null => seq!['n', 'u', 'l', 'l'],
        JsonValue::Bool(b) => if b {
            seq!['t', 'r', 'u', 'e']
        } else {
            seq!['f', 'a', 'l', 's', 'e']
        },
        JsonValue::Number(t) => t@,
        JsonValue::String(s) => quoted_text(s@),
        JsonValue::Array(elems) => seq!['['] + array_body(elems@) + seq![']'],
        JsonValue::Object(entries) => seq!['{'] + object_body(entries@) + seq!['}'],
    }
}

/// The comma-separated elements of a JSON array, without the brackets.
pub open spec fn array_body(elems: Seq<JsonValue>) -> Seq<char>
    decreases elems, 0int,
{
    if elems.len() == 0 {
        Seq::empty()
    } else if elems.len() == 1 {
        json_text(elems[0])
    } else {
        array_body(elems.drop_last()) + seq![','] + json_text(elems.last())
    }
}

/// One `"key":value` member of a JSON object.
pub open spec fn entry_text(e: (String, JsonValue)) -> Seq<char>
    decreases e, 1int,
{
    quoted_text(e.0@) + seq![':'] + json_text(e.1)
}

/// The comma-separated members of a JSON object, without the braces.
pub open spec fn object_body(entries: Seq<(String, JsonValue)>) -> Seq<char>
    decreases entries, 0int,
{
    if entries.len() == 0 {
        Seq::empty()
    } else if entries.len() == 1 {
        entry_text(entries[0])
    } else {
        object_body(entries.drop_last()) + seq![','] + entry_text(entries.last())
    }
}

/// The members of `entries` whose key is not `drop_key`, in order.
pub open spec fn remaining_entries(
    entries: Seq<(String, JsonValue)>,
    drop_key: Seq<char>,
) -> Seq<(String, JsonValue)> {
    entries.filter(|e: (String, JsonValue)| e.0@ != drop_key)
}

/// The serialized object holding every member of `entries` except those
/// keyed `drop_key`.
pub open spec fn pruned_object_text(
    entries: Seq<(String, JsonValue)>,
    drop_key: Seq<char>,
) -> Seq<char> {
    seq!['{'] + object_body(remaining_entries(entries, drop_key)) + seq!['}']
}

fn hex_char(n: u32) -> (c: char)
    requires
        n < 16,
    ensures
        c == hex_digit(n as int),
{
    if n == 0 {
        '0'
    } else if n == 1 {
        '1'
    } else if n == 2 {
        '2'
    } else if n == 3 {
        '3'
    } else if n == 4 {
        '4'
    } else if n == 5 {
        '5'
    } else if n == 6 {
        '6'
    } else if n == 7 {
        '7'
    } else if n == 8 {
        '8'
    } else if n == 9 {
        '9'
    } else if n == 10 {
        'a'
    } else if n == 11 {
        'b'
    } else if n == 12 {
        'c'
    } else if n == 13 {
        'd'
    } else if n == 14 {
        'e'
    } else {
        'f'
    }
}

fn push_escaped(c: char, out: &mut Vec<char>)
    ensures
        final(out)@ == old(out)@ + escaped_char(c),
{
    if c == '"' {
        out.push('\\');
        out.push('"');
    } else if c == '\\' {
        out.push('\\');
        out.push('\\');
    } else if c == '\u{8}' {
        out.push('\\');
        out.push('b');
    } else if c == '\u{9}' {
        out.push('\\');
        out.push('t');
    } else if c == '\u{a}' {
        out.push('\\');
        out.push('n');
    } else if c == '\u{c}' {
        out.push('\\');
        out.push('f');
    } else if c == '\u{d}' {
        out.push('\\');
        out.push('r');
    } else {
        let n = c as u32;
        if n < 0x20 {
            out.push('\\');
            out.push('u');
            out.push('0');
            out.push('0');
            out.push(hex_char(n / 16));
            out.push(hex_char(n % 16));
        } else {
            out.push(c);
        }
    }
    proof {
        assert(out@ =~= old(out)@ + escaped_char(c));
    }
}

fn push_raw(s: &str, out: &mut Vec<char>)
    ensures
        final(out)@ == old(out)@ + s@,
{
    let chars = str_chars(s);
    let ghost orig = out@;
    let mut i: usize = 0;
    while i < chars.len()
        invariant
            i <= chars.len(),
            chars@ == s@,
            out@ == orig + chars@.take(i as int),
        decreases chars.len() - i,
    {
        out.push(chars[i]);
        proof {
            assert(chars@.take(i + 1 as int) =~= chars@.take(i as int).push(chars@[i as int]));
            assert(out@ =~= orig + chars@.take(i + 1 as int));
        }
        i = i + 1;
    }
    proof {
        assert(chars@.take(chars@.len() as int) =~= s@);
    }
}

fn push_quoted(s: &str, out: &mut Vec<char>)
    ensures
        final(out)@ == old(out)@ + quoted_text(s@),
{
    let chars = str_chars(s);
    let ghost orig = out@;
    out.push('"');
    let mut i: usize = 0;
    while i < chars.len()
        invariant
            i <= chars.len(),
            chars@ == s@,
            out@ == orig + seq!['"'] + escaped_text(chars@.take(i as int)),
        decreases chars.len() - i,
    {
        push_escaped(chars[i], out);
        proof {
            let pre = chars@.take(i as int);
            let post = chars@.take(i + 1 as int);
            assert(post.drop_last() =~= pre);
            assert(post.last() == chars@[i as int]);
            assert(out@ =~= orig + seq!['"'] + escaped_text(post));
        }
        i = i + 1;
    }
    out.push('"');
    proof {
        assert(chars@.take(chars@.len() as int) =~= s@);
        assert(out@ =~= old(out)@ + quoted_text(s@));
    }
}

/// Append the serialized text of `v` to `out`.
#[verifier::loop_isolation(false)]
pub fn write_json(v: &JsonValue, out: &mut Vec<char>)
    ensures
        final(out)@ == old(out)@ + json_text(*v),
    decreases *v,
{
    match v {
        JsonValue::Null => {
            out.push('n');
            out.push('u');
            out.push('l');
            out.push('l');
            proof {
                assert(out@ =~= old(out)@ + json_text(*v));
            }
        },
        JsonValue::Bool(b) => {
            if *b {
                out.push('t');
                out.push('r');
                out.push('u');
                out.push('e');
            } else {
                out.push('f');
                out.push('a');
                out.push('l');
                out.push('s');
                out.push('e');
            }
            proof {
                assert(out@ =~= old(out)@ + json_text(*v));
            }
        },
        JsonValue::Number(t) => {
            push_raw(t.as_str(), out);
        },
        JsonValue::String(s) => {
            push_quoted(s.as_str(), out);
        },
        JsonValue::Array(elems) => {
            let ghost orig = out@;
            out.push('[');
            let mut i: usize = 0;
            while i < elems.len()
                invariant
                    i <= elems.len(),
                    elems@ == v->Array_0@,
                    out@ == orig + seq!['['] + array_body(elems@.take(i as int)),
                decreases elems.len() - i,
            {
                if i > 0 {
                    out.push(',');
                }
                proof {
                    assert(decreases_to!(*v => v->Array_0));
                    assert(decreases_to!(v->Array_0 => v->Array_0[i as int]));
                    assert(decreases_to!(*v => elems@[i as int]));
                }
                write_json(&elems[i], out);
                proof {
                    let pre = elems@.take(i as int);
                    let post = elems@.take(i + 1 as int);
                    assert(post.drop_last() =~= pre);
                    assert(post.last() == elems@[i as int]);
                    assert(out@ =~= orig + seq!['['] + array_body(post));
                }
                i = i + 1;
            }
            out.push(']');
            proof {
                assert(elems@.take(elems@.len() as int) =~= elems@);
                assert(out@ =~= old(out)@ + json_text(*v));
            }
        },
        JsonValue::Object(entries) => {
            let ghost orig = out@;
            out.push('{');
            let mut i: usize = 0;
            while i < entries.len()
                invariant
                    i <= entries.len(),
                    entries@ == v->Object_0@,
                    out@ == orig + seq!['{'] + object_body(entries@.take(i as int)),
                decreases entries.len() - i,
            {
                if i > 0 {
                    out.push(',');
                }
                let e = &entries[i];
                push_quoted(e.0.as_str(), out);
                out.push(':');
                proof {
                    assert(decreases_to!(*v => v->Object_0));
                    assert(decreases_to!(v->Object_0 => v->Object_0[i as int]));
                    assert(decreases_to!(v->Object_0[i as int] => v->Object_0[i as int].1));
                    assert(decreases_to!(*v => entries@[i as int].1));
                }
                write_json(&e.1, out);
                proof {
                    let pre = entries@.take(i as int);
                    let post = entries@.take(i + 1 as int);
                    assert(post.drop_last() =~= pre);
                    assert(post.last() == entries@[i as int]);
                    assert(entry_text(entries@[i as int]) =~= quoted_text(entries@[i as int].0@)
                        + seq![':'] + json_text(entries@[i as int].1));
                    assert(out@ =~= orig + seq!['{'] + object_body(post));
                }
                i = i + 1;
            }
            out.push('}');
            proof {
                assert(entries@.take(entries@.len() as int) =~= entries@);
                assert(out@ =~= old(out)@ + json_text(*v));
            }
        },
    }
}

/// The serialized text of `v`, as a `String`.
pub fn to_json_string(v: &JsonValue) -> (s: String)
    ensures
        s@ == json_text(*v),
{
    let mut out: Vec<char> = Vec::new();
    write_json(v, &mut out);
    chars_string(&out)
}

/// Serialize the members of `entries` as a JSON object, leaving out every
/// member whose key is `drop_key`.
pub fn pruned_object_string(entries: &Vec<(String, JsonValue)>, drop_key: &String) -> (s: String)
    ensures
        s@ == pruned_object_text(entries@, drop_key@),
{
    let ghost pred = |e: (String, JsonValue)| e.0@ != drop_key@;
    let mut out: Vec<char> = Vec::new();
    out.push('{');
    let mut wrote_any = false;
    let mut i: usize = 0;
    proof {
        reveal_with_fuel(Seq::filter, 1);
        assert(entries@.take(0int) =~= Seq::<(String, JsonValue)>::empty());
        assert(remaining_entries(entries@.take(0int), drop_key@) =~= Seq::<(
            String,
            JsonValue,
        )>::empty());
    }
    while i < entries.len()
        invariant
            i <= entries.len(),
            pred == (|e: (String, JsonValue)| e.0@ != drop_key@),
            out@ == seq!['{'] + object_body(remaining_entries(entries@.take(i as int), drop_key@)),
            wrote_any == (remaining_entries(entries@.take(i as int), drop_key@).len() > 0),
        decreases entries.len() - i,
    {
        let e = &entries[i];
        let ghost pre = remaining_entries(entries@.take(i as int), drop_key@);
        proof {
            reveal_with_fuel(Seq::filter, 1);
            let post_src = entries@.take(i + 1 as int);
            assert(post_src.drop_last() =~= entries@.take(i as int));
            assert(post_src.last() == entries@[i as int]);
        }
        if e.0 == *drop_key {
            proof {
                assert(remaining_entries(entries@.take(i + 1 as int), drop_key@) =~= pre);
            }
        } else {
            if wrote_any {
                out.push(',');
            }
            push_quoted(e.0.as_str(), &mut out);
            out.push(':');
            write_json(&e.1, &mut out);
            proof {
                let post = remaining_entries(entries@.take(i + 1 as int), drop_key@);
                assert(post =~= pre.push(entries@[i as int]));
                assert(entry_text(entries@[i as int]) =~= quoted_text(entries@[i as int].0@)
                    + seq![':'] + json_text(entries@[i as int].1));
                if pre.len() == 0 {
                    assert(object_body(post) == entry_text(post[0]));
                    assert(post[0] == entries@[i as int]);
                } else {
                    assert(post.drop_last() =~= pre);
                    assert(post.last() == entries@[i as int]);
                }
                assert(out@ =~= seq!['{'] + object_body(post));
            }
            wrote_any = true;
        }
        i = i + 1;
    }
    out.push('}');
    proof {
        assert(entries@.take(entries@.len() as int) =~= entries@);
        assert(out@ =~= pruned_object_text(entries@, drop_key@));
    }
    chars_string(&out)
}

} // verus!
