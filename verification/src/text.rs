//! Rendering a JSON document as wire text.
//!
//! The grammar is stated by the spec functions; [`to_text`] is proved to
//! produce exactly that text.  Strings are escaped as JSON asks: quote,
//! backslash and control characters only.

use vstd::prelude::*;
use crate::value::{Json, JsonValue, value_view, views_of, member_views, lemma_views_of, lemma_member_views};

verus! {

/// The character for the decimal digit `d`.
pub open spec fn digit_char(d: nat) -> char {
    if d == 0 {
        '0'
    } else if d == 1 {
        '1'
    } else if d == 2 {
        '2'
    } else if d == 3 {
        '3'
    } else if d == 4 {
        '4'
    } else if d == 5 {
        '5'
    } else if d == 6 {
        '6'
    } else if d == 7 {
        '7'
    } else if d == 8 {
        '8'
    } else {
        '9'
    }
}

/// The character for the hexadecimal digit `d`.
pub open spec fn hex_char(d: nat) -> char {
    if d < 10 {
        digit_char(d)
    } else if d == 10 {
        'a'
    } else if d == 11 {
        'b'
    } else if d == 12 {
        'c'
    } else if d == 13 {
        'd'
    } else if d == 14 {
        'e'
    } else {
        'f'
    }
}

/// The decimal notation of `n`, most significant digit first.
pub open spec fn dec_digits(n: nat) -> Seq<char>
    decreases n,
{
    if n < 10 {
        seq![digit_char(n)]
    } else {
        dec_digits(n / 10).push(digit_char(n % 10))
    }
}

/// The decimal notation of `i`, with a leading minus sign when negative.
pub open spec fn int_chars(i: int) -> Seq<char> {
    if i < 0 {
        seq!['-'] + dec_digits((-i) as nat)
    } else {
        dec_digits(i as nat)
    }
}

/// What `c` becomes inside a JSON string literal.
pub open spec fn escape_char(c: char) -> Seq<char> {
    if c == '"' {
        seq!['\\', '"']
    } else if c == '\\' {
        seq!['\\', '\\']
    } else if c == '\n' {
        seq!['\\', 'n']
    } else if c == '\r' {
        seq!['\\', 'r']
    } else if c == '\t' {
        seq!['\\', 't']
    } else if c == '\u{8}' {
        seq!['\\', 'b']
    } else if c == '\u{c}' {
        seq!['\\', 'f']
    } else if (c as u32) < 32 {
        seq!['\\', 'u', '0', '0', hex_char((c as u32) as nat / 16), hex_char(
            (c as u32) as nat % 16,
        )]
    } else {
        seq![c]
    }
}

/// The body of a JSON string literal for `s`.
pub open spec fn escaped(s: Seq<char>) -> Seq<char>
    decreases s.len(),
{
    if s.len() == 0 {
        Seq::empty()
    } else {
        escaped(s.drop_last()) + escape_char(s.last())
    }
}

/// The JSON string literal for `s`, quotes included.
pub open spec fn quoted(s: Seq<char>) -> Seq<char> {
    seq!['"'] + escaped(s) + seq!['"']
}

/// The members of an array, comma separated.
pub open spec fn array_text(items: Seq<Json>) -> Seq<char>
    decreases items,
{
    if items.len() == 0 {
        Seq::empty()
    } else if items.len() == 1 {
        json_text(items.last())
    } else {
        array_text(items.drop_last()) + seq![','] + json_text(items.last())
    }
}

/// The members of an object, comma separated, each `"key":value`.
pub open spec fn object_text(members: Seq<(Seq<char>, Json)>) -> Seq<char>
    decreases members,
{
    if members.len() == 0 {
        Seq::empty()
    } else if members.len() == 1 {
        quoted(members.last().0) + seq![':'] + json_text(members.last().1)
    } else {
        object_text(members.drop_last()) + seq![','] + quoted(members.last().0) + seq![':']
            + json_text(members.last().1)
    }
}

/// The wire text of the document `j`.
pub open spec fn json_text(j: Json) -> Seq<char>
    decreases j,
{
    match j {
        Json::Null => seq!['n', 'u', 'l', 'l'],
        Json::Bool(b) => if b {
            seq!['t', 'r', 'u', 'e']
        } else {
            seq!['f', 'a', 'l', 's', 'e']
        },
        Json::U64(n) => dec_digits(n as nat),
        Json::I64(n) => int_chars(n as int),
        Json::Str(s) => quoted(s),
        Json::Array(items) => seq!['['] + array_text(items) + seq![']'],
        Json::Object(members) => seq!['{'] + object_text(members) + seq!['}'],
    }
}

/// Relies on str::chars: it yields the string's characters in order,
/// which is the string's view.
#[verifier::external_body]
fn chars_of(s: &str) -> (r: Vec<char>)
    ensures
        r@ == s@,
{
    s.chars().collect()
}

/// Relies on String::from_iter over characters: it collects them in order,
/// so the result's view is the input sequence.
#[verifier::external_body]
fn string_of_chars(v: Vec<char>) -> (r: String)
    ensures
        r@ == v@,
{
    v.into_iter().collect()
}

/// The character for the decimal digit `d`.
fn digit_of(d: u64) -> (c: char)
    requires
        d < 10,
    ensures
        c == digit_char(d as nat),
{
    if d == 0 {
        '0'
    } else if d == 1 {
        '1'
    } else if d == 2 {
        '2'
    } else if d == 3 {
        '3'
    } else if d == 4 {
        '4'
    } else if d == 5 {
        '5'
    } else if d == 6 {
        '6'
    } else if d == 7 {
        '7'
    } else if d == 8 {
        '8'
    } else {
        '9'
    }
}

/// The character for the hexadecimal digit `d`.
fn hex_of(d: u32) -> (c: char)
    requires
        d < 16,
    ensures
        c == hex_char(d as nat),
{
    if d < 10 {
        digit_of(d as u64)
    } else if d == 10 {
        'a'
    } else if d == 11 {
        'b'
    } else if d == 12 {
        'c'
    } else if d == 13 {
        'd'
    } else if d == 14 {
        'e'
    } else {
        'f'
    }
}

/// Appends the decimal notation of `n`.
fn write_u64(n: u64, out: &mut Vec<char>)
    ensures
        final(out)@ == old(out)@ + dec_digits(n as nat),
    decreases n,
{
    if n < 10 {
        out.push(digit_of(n));
        proof {
            assert(out@ =~= old(out)@ + dec_digits(n as nat));
        }
    } else {
        let q = n / 10;
        let r = n % 10;
        assert(q < n && r < 10);
        write_u64(q, out);
        out.push(digit_of(r));
        proof {
            assert(q as nat == n as nat / 10 && r as nat == n as nat % 10);
            assert(out@ =~= old(out)@ + dec_digits(n as nat));
        }
    }
}

/// Appends the decimal notation of `n`, minus sign included when negative.
fn write_i64(n: i64, out: &mut Vec<char>)
    ensures
        final(out)@ == old(out)@ + int_chars(n as int),
{
    if n >= 0 {
        write_u64(n as u64, out);
    } else {
        out.push('-');
        let wide: i128 = n as i128;
        let mag: u64 = (-wide) as u64;
        proof {
            assert(mag as nat == (-(n as int)) as nat);
        }
        write_u64(mag, out);
        proof {
            assert(out@ =~= old(out)@ + int_chars(n as int));
        }
    }
}

/// Appends the string literal for `s`, quotes included.
fn write_quoted(s: &str, out: &mut Vec<char>)
    ensures
        final(out)@ == old(out)@ + quoted(s@),
{
    let chars = chars_of(s);
    out.push('"');
    let n = chars.len();
    let mut i: usize = 0;
    while i < n
        invariant
            chars@ == s@,
            n == chars@.len(),
            i <= n,
            out@ == old(out)@ + seq!['"'] + escaped(s@.take(i as int)),
        decreases n - i,
    {
        let c = chars[i];
        proof {
            assert(s@.take(i + 1).drop_last() =~= s@.take(i as int));
            assert(s@.take(i + 1).last() == c);
        }
        if c == '"' {
            out.push('\\');
            out.push('"');
        } else if c == '\\' {
            out.push('\\');
            out.push('\\');
        } else if c == '\n' {
            out.push('\\');
            out.push('n');
        } else if c == '\r' {
            out.push('\\');
            out.push('r');
        } else if c == '\t' {
            out.push('\\');
            out.push('t');
        } else if c == '\u{8}' {
            out.push('\\');
            out.push('b');
        } else if c == '\u{c}' {
            out.push('\\');
            out.push('f');
        } else if (c as u32) < 32 {
            let u = c as u32;
            out.push('\\');
            out.push('u');
            out.push('0');
            out.push('0');
            out.push(hex_of(u / 16));
            out.push(hex_of(u % 16));
        } else {
            out.push(c);
        }
        proof {
            assert(out@ =~= old(out)@ + seq!['"'] + escaped(s@.take(i + 1)));
        }
        i += 1;
    }
    out.push('"');
    proof {
        assert(s@.take(n as int) =~= s@);
        assert(out@ =~= old(out)@ + quoted(s@));
    }
}

/// Appends the wire text of `v`.
pub fn write_json(v: &JsonValue, out: &mut Vec<char>)
    ensures
        final(out)@ == old(out)@ + json_text(v@),
    decreases *v,
{
    match v {
        JsonValue::Null => {
            out.push('n');
            out.push('u');
            out.push('l');
            out.push('l');
            proof {
                assert(out@ =~= old(out)@ + json_text(v@));
            }
        },
        JsonValue::Bool(b) => {
            if *b {
                out.push('t');
                out.push('r');
                out.push('u');
                out.push('e');
            } else {
                out.push('f');
                out.push('a');
                out.push('l');
                out.push('s');
                out.push('e');
            }
            proof {
                assert(out@ =~= old(out)@ + json_text(v@));
            }
        },
        JsonValue::U64(n) => {
            write_u64(*n, out);
        },
        JsonValue::I64(n) => {
            write_i64(*n, out);
        },
        JsonValue::Str(s) => {
            write_quoted(s.as_str(), out);
        },
        JsonValue::Array(items) => {
            proof {
                lemma_views_of(items@);
            }
            let ghost va = views_of(items@);
            out.push('[');
            let n = items.len();
            let mut i: usize = 0;
            while i < n
                invariant
                    *v == JsonValue::Array(*items),
                    va == views_of(items@),
                    va.len() == items@.len(),
                    forall|k: int| 0 <= k < items@.len() ==> va[k] == value_view(items@[k]),
                    n == items@.len(),
                    i <= n,
                    out@ == old(out)@ + seq!['['] + array_text(va.take(i as int)),
                decreases n - i,
            {
                proof {
                    assert(decreases_to!(*v => v->Array_0));
                    assert(v->Array_0 == *items);
                    assert(decreases_to!(v->Array_0 => v->Array_0@[i as int]));
                    assert(decreases_to!(*v => items@[i as int]));
                }
                if i > 0 {
                    out.push(',');
                }
                write_json(&items[i], out);
                proof {
                    assert(va.take(i + 1).drop_last() =~= va.take(i as int));
                    assert(va.take(i + 1).last() == va[i as int]);
                    assert(out@ =~= old(out)@ + seq!['['] + array_text(va.take(i + 1)));
                }
                i += 1;
            }
            out.push(']');
            proof {
                assert(va.take(n as int) =~= va);
                assert(out@ =~= old(out)@ + json_text(v@));
            }
        },
        JsonValue::Object(entries) => {
            proof {
                lemma_member_views(entries@);
            }
            let ghost mv = member_views(entries@);
            out.push('{');
            let n = entries.len();
            let mut i: usize = 0;
            while i < n
                invariant
                    *v == JsonValue::Object(*entries),
                    mv == member_views(entries@),
                    mv.len() == entries@.len(),
                    forall|k: int|
                        0 <= k < entries@.len() ==> mv[k] == (
                            entries@[k].0@,
                            value_view(entries@[k].1),
                        ),
                    n == entries@.len(),
                    i <= n,
                    out@ == old(out)@ + seq!['{'] + object_text(mv.take(i as int)),
                decreases n - i,
            {
                proof {
                    assert(decreases_to!(*v => v->Object_0));
                    assert(v->Object_0 == *entries);
                    assert(decreases_to!(v->Object_0 => v->Object_0@[i as int]));
                    assert(decreases_to!(
                        v->Object_0@[i as int] => v->Object_0@[i as int].1));
                    assert(decreases_to!(*v => entries@[i as int].1));
                }
                if i > 0 {
                    out.push(',');
                }
                write_quoted(entries[i].0.as_str(), out);
                out.push(':');
                write_json(&entries[i].1, out);
                proof {
                    assert(mv.take(i + 1).drop_last() =~= mv.take(i as int));
                    assert(mv.take(i + 1).last() == mv[i as int]);
                    assert(out@ =~= old(out)@ + seq!['{'] + object_text(mv.take(i + 1)));
                }
                i += 1;
            }
            out.push('}');
            proof {
                assert(mv.take(n as int) =~= mv);
                assert(out@ =~= old(out)@ + json_text(v@));
            }
        },
    }
}

/// The wire text of `v`, as a string.
pub fn to_text(v: &JsonValue) -> (r: String)
    ensures
        r@ == json_text(v@),
{
    let mut out: Vec<char> = Vec::new();
    write_json(v, &mut out);
    proof {
        assert(out@ =~= json_text(v@));
    }
    string_of_chars(out)
}

} // verus!
