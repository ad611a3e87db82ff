//! JSON rendering of a todo list for the wire.
//!
//! The server answers every request with the current list as a JSON array
//! of strings. [`json_array_spec`] says, character by character, what that
//! rendering is, and [`to_json`] produces it.

use vstd::prelude::*;

use crate::store::push_char;

verus! {

/// The hexadecimal digit character for `n`.
pub open spec fn hex_digit(n: int) -> char {
    if n == 0 {
        '0'
    } else if n == 1 {
        '1'
    } else if n == 2 {
        '2'
    } else if n == 3 {
        '3'
    } else if n == 4 {
        '4'
    } else if n == 5 {
        '5'
    } else if n == 6 {
        '6'
    } else if n == 7 {
        '7'
    } else if n == 8 {
        '8'
    } else if n == 9 {
        '9'
    } else if n == 10 {
        'a'
    } else if n == 11 {
        'b'
    } else if n == 12 {
        'c'
    } else if n == 13 {
        'd'
    } else if n == 14 {
        'e'
    } else {
        'f'
    }
}

/// How one character appears inside a JSON string literal: `"` and `\` get
/// a backslash escape, the named control characters their short escapes,
/// every other control character a `\u00XX` escape, and all remaining
/// characters stand for themselves.
pub open spec fn escape_char(c: char) -> Seq<char> {
    if c == '"' {
        seq!['\\', '"']
    } else if c == '\\' {
        seq!['\\', '\\']
    } else if c == '\u{8}' {
        seq!['\\', 'b']
    } else if c == '\t' {
        seq!['\\', 't']
    } else if c == '\n' {
        seq!['\\', 'n']
    } else if c == '\u{c}' {
        seq!['\\', 'f']
    } else if c == '\r' {
        seq!['\\', 'r']
    } else if (c as u32) < 0x20 {
        seq!['\\', 'u', '0', '0', hex_digit((c as int) / 16), hex_digit((c as int) % 16)]
    } else {
        seq![c]
    }
}

/// The body of a JSON string literal: each character of `s` escaped.
pub open spec fn escaped(s: Seq<char>) -> Seq<char>
    decreases s.len(),
{
    if s.len() == 0 {
        Seq::empty()
    } else {
        escaped(s.drop_last()) + escape_char(s.last())
    }
}

/// `s` as a JSON string literal: quoted and escaped.
pub open spec fn json_string_spec(s: Seq<char>) -> Seq<char> {
    seq!['"'] + escaped(s) + seq!['"']
}

/// The items of `v` as JSON string literals joined by commas.
pub open spec fn json_items_spec(v: Seq<Seq<char>>) -> Seq<char>
    decreases v.len(),
{
    if v.len() == 0 {
        Seq::empty()
    } else if v.len() == 1 {
        json_string_spec(v[0])
    } else {
        json_items_spec(v.drop_last()) + seq![','] + json_string_spec(v.last())
    }
}

/// `v` as a JSON array of string literals.
pub open spec fn json_array_spec(v: Seq<Seq<char>>) -> Seq<char> {
    seq!['['] + json_items_spec(v) + seq![']']
}

proof fn lemma_escaped_push(s: Seq<char>, c: char)
    ensures
        escaped(s.push(c)) == escaped(s) + escape_char(c),
{
    assert(s.push(c).drop_last() =~= s);
    assert(s.push(c).last() == c);
}

proof fn lemma_json_items_push(v: Seq<Seq<char>>, x: Seq<char>)
    ensures
        json_items_spec(v.push(x)) == if v.len() == 0 {
            json_string_spec(x)
        } else {
            json_items_spec(v) + seq![','] + json_string_spec(x)
        },
{
    assert(v.push(x).drop_last() =~= v);
    assert(v.push(x).last() == x);
}

/// The character for a hexadecimal digit value.
fn hex_digit_char(n: u32) -> (c: char)
    requires
        n < 16,
    ensures
        c == hex_digit(n as int),
{
    if n == 0 {
        '0'
    } else if n == 1 {
        '1'
    } else if n == 2 {
        '2'
    } else if n == 3 {
        '3'
    } else if n == 4 {
        '4'
    } else if n == 5 {
        '5'
    } else if n == 6 {
        '6'
    } else if n == 7 {
        '7'
    } else if n == 8 {
        '8'
    } else if n == 9 {
        '9'
    } else if n == 10 {
        'a'
    } else if n == 11 {
        'b'
    } else if n == 12 {
        'c'
    } else if n == 13 {
        'd'
    } else if n == 14 {
        'e'
    } else {
        'f'
    }
}

/// Appends the JSON escape of `c` to `out`.
fn push_escape(out: &mut String, c: char)
    ensures
        final(out)@ == old(out)@ + escape_char(c),
{
    if c == '"' {
        push_char(out, '\\');
        push_char(out, '"');
    } else if c == '\\' {
        push_char(out, '\\');
        push_char(out, '\\');
    } else if c == '\u{8}' {
        push_char(out, '\\');
        push_char(out, 'b');
    } else if c == '\t' {
        push_char(out, '\\');
        push_char(out, 't');
    } else if c == '\n' {
        push_char(out, '\\');
        push_char(out, 'n');
    } else if c == '\u{c}' {
        push_char(out, '\\');
        push_char(out, 'f');
    } else if c == '\r' {
        push_char(out, '\\');
        push_char(out, 'r');
    } else if (c as u32) < 0x20 {
        let n = c as u32;
        push_char(out, '\\');
        push_char(out, 'u');
        push_char(out, '0');
        push_char(out, '0');
        push_char(out, hex_digit_char(n / 16));
        push_char(out, hex_digit_char(n % 16));
    } else {
        push_char(out, c);
    }
    proof {
        assert(final(out)@ =~= old(out)@ + escape_char(c));
    }
}

/// Appends `s` as a JSON string literal to `out`.
fn push_json_string(out: &mut String, s: &str)
    ensures
        final(out)@ == old(out)@ + json_string_spec(s@),
{
    push_char(out, '"');
    let n = s.unicode_len();
    let mut i: usize = 0;
    while i < n
        invariant
            n == s@.len(),
            i <= n,
            out@ == old(out)@ + seq!['"'] + escaped(s@.subrange(0, i as int)),
        decreases n - i,
    {
        let c = s.get_char(i);
        push_escape(out, c);
        proof {
            let prefix = s@.subrange(0, i as int);
            assert(s@.subrange(0, i + 1) =~= prefix.push(s@[i as int]));
            lemma_escaped_push(prefix, s@[i as int]);
            assert(out@ =~= old(out)@ + seq!['"'] + escaped(s@.subrange(0, i + 1)));
        }
        i = i + 1;
    }
    push_char(out, '"');
    proof {
        assert(s@.subrange(0, n as int) =~= s@);
        assert(final(out)@ =~= old(out)@ + json_string_spec(s@));
    }
}

/// Renders `items` as a JSON array of strings.
pub fn to_json(items: &Vec<String>) -> (r: String)
    ensures
        r@ == json_array_spec(items.deep_view()),
{
    let mut out = String::new();
    push_char(&mut out, '[');
    let mut i: usize = 0;
    while i < items.len()
        invariant
            i <= items.len(),
            out@ == seq!['['] + json_items_spec(items.deep_view().subrange(0, i as int)),
        decreases items.len() - i,
    {
        if i > 0 {
            push_char(&mut out, ',');
        }
        push_json_string(&mut out, items[i].as_str());
        proof {
            let dv = items.deep_view();
            let prefix = dv.subrange(0, i as int);
            assert(items@[i as int]@ == dv[i as int]);
            assert(dv.subrange(0, i + 1) =~= prefix.push(dv[i as int]));
            lemma_json_items_push(prefix, dv[i as int]);
            assert(out@ =~= seq!['['] + json_items_spec(dv.subrange(0, i + 1)));
        }
        i = i + 1;
    }
    push_char(&mut out, ']');
    proof {
        let dv = items.deep_view();
        assert(dv.subrange(0, items@.len() as int) =~= dv);
        assert(out@ =~= json_array_spec(dv));
    }
    out
}

} // verus!
