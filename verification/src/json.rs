//! Compact JSON text of the library's records: the wire form from which
//! identities are derived. Strings are escaped as JSON requires (quote,
//! backslash and control codes below U+0020), integers are written in
//! decimal, and records are objects whose fields keep their declared order.

use vstd::prelude::*;

verus! {

/// Appends one character to a string.
///
/// Trusted: calls `String::push`, which the standard library documents as
/// appending the given char to the end of the string.
#[verifier::external_body]
pub fn string_push(s: &mut String, c: char)
    ensures
        final(s)@ == old(s)@.push(c),
{
    s.push(c);
}

/// Appends a string slice.
pub fn string_append(s: &mut String, t: &str)
    ensures
        final(s)@ == old(s)@ + t@,
{
    s.append(t);
}

/// The decimal digit for `d < 10`.
pub open spec fn digit_char(d: nat) -> char {
    if d == 0 {
        '0'
    } else if d == 1 {
        '1'
    } else if d == 2 {
        '2'
    } else if d == 3 {
        '3'
    } else if d == 4 {
        '4'
    } else if d == 5 {
        '5'
    } else if d == 6 {
        '6'
    } else if d == 7 {
        '7'
    } else if d == 8 {
        '8'
    } else {
        '9'
    }
}

/// The lowercase hexadecimal digit for `d < 16`.
pub open spec fn hex_char(d: nat) -> char {
    if d < 10 {
        digit_char(d)
    } else if d == 10 {
        'a'
    } else if d == 11 {
        'b'
    } else if d == 12 {
        'c'
    } else if d == 13 {
        'd'
    } else if d == 14 {
        'e'
    } else {
        'f'
    }
}

pub fn hex_digit(d: u32) -> (c: char)
    requires
        d < 16,
    ensures
        c == hex_char(d as nat),
{
    if d == 0 {
        '0'
    } else if d == 1 {
        '1'
    } else if d == 2 {
        '2'
    } else if d == 3 {
        '3'
    } else if d == 4 {
        '4'
    } else if d == 5 {
        '5'
    } else if d == 6 {
        '6'
    } else if d == 7 {
        '7'
    } else if d == 8 {
        '8'
    } else if d == 9 {
        '9'
    } else if d == 10 {
        'a'
    } else if d == 11 {
        'b'
    } else if d == 12 {
        'c'
    } else if d == 13 {
        'd'
    } else if d == 14 {
        'e'
    } else {
        'f'
    }
}

/// Decimal text of a natural number, without leading zeros.
pub open spec fn decimal(n: nat) -> Seq<char>
    decreases n,
{
    if n < 10 {
        seq![digit_char(n)]
    } else {
        decimal(n / 10).push(digit_char(n % 10))
    }
}

pub fn push_decimal(out: &mut String, n: u64)
    ensures
        final(out)@ == old(out)@ + decimal(n as nat),
    decreases n,
{
    if n >= 10 {
        push_decimal(out, n / 10);
    }
    let d = n % 10;
    let c = hex_digit(d as u32);
    string_push(out, c);
    proof {
        if n >= 10 {
            assert(decimal(n as nat) == decimal((n / 10) as nat).push(digit_char((n % 10) as nat)));
        }
    }
    assert(final(out)@ =~= old(out)@ + decimal(n as nat));
}

/// JSON escape of one character inside a string literal.
pub open spec fn json_escape_char(c: char) -> Seq<char> {
    let v = c as u32;
    if c == '"' {
        seq!['\\', '"']
    } else if c == '\\' {
        seq!['\\', '\\']
    } else if v == 0x08 {
        seq!['\\', 'b']
    } else if v == 0x09 {
        seq!['\\', 't']
    } else if v == 0x0a {
        seq!['\\', 'n']
    } else if v == 0x0c {
        seq!['\\', 'f']
    } else if v == 0x0d {
        seq!['\\', 'r']
    } else if v < 0x20 {
        seq!['\\', 'u', '0', '0', hex_char((v / 16) as nat), hex_char((v % 16) as nat)]
    } else {
        seq![c]
    }
}

/// The escaped characters of a string.
pub open spec fn json_escaped(s: Seq<char>) -> Seq<char>
    decreases s.len(),
{
    if s.len() == 0 {
        Seq::empty()
    } else {
        json_escaped(s.drop_last()) + json_escape_char(s.last())
    }
}

/// A JSON string literal.
pub open spec fn json_str(s: Seq<char>) -> Seq<char> {
    seq!['"'] + json_escaped(s) + seq!['"']
}

pub open spec fn json_bool(b: bool) -> Seq<char> {
    if b {
        seq!['t', 'r', 'u', 'e']
    } else {
        seq!['f', 'a', 'l', 's', 'e']
    }
}

pub open spec fn json_null() -> Seq<char> {
    seq!['n', 'u', 'l', 'l']
}

/// The text an optional string holds.
pub open spec fn text_view(o: Option<String>) -> Option<Seq<char>> {
    match o {
        Some(t) => Some(t@),
        None => None,
    }
}

/// An optional string: the literal, or `null`.
pub open spec fn json_opt_str(s: Option<Seq<char>>) -> Seq<char> {
    match s {
        Some(t) => json_str(t),
        None => json_null(),
    }
}

fn push_escaped_char(out: &mut String, c: char)
    ensures
        final(out)@ == old(out)@ + json_escape_char(c),
{
    let v = c as u32;
    if c == '"' {
        string_push(out, '\\');
        string_push(out, '"');
    } else if c == '\\' {
        string_push(out, '\\');
        string_push(out, '\\');
    } else if v == 0x08 {
        string_push(out, '\\');
        string_push(out, 'b');
    } else if v == 0x09 {
        string_push(out, '\\');
        string_push(out, 't');
    } else if v == 0x0a {
        string_push(out, '\\');
        string_push(out, 'n');
    } else if v == 0x0c {
        string_push(out, '\\');
        string_push(out, 'f');
    } else if v == 0x0d {
        string_push(out, '\\');
        string_push(out, 'r');
    } else if v < 0x20 {
        string_push(out, '\\');
        string_push(out, 'u');
        string_push(out, '0');
        string_push(out, '0');
        string_push(out, hex_digit(v / 16));
        string_push(out, hex_digit(v % 16));
    } else {
        string_push(out, c);
    }
    assert(final(out)@ =~= old(out)@ + json_escape_char(c));
}

/// Appends the JSON string literal of `s`.
pub fn push_json_str(out: &mut String, s: &str)
    ensures
        final(out)@ == old(out)@ + json_str(s@),
{
    let ghost start = out@;
    string_push(out, '"');
    let n = s.unicode_len();
    let mut i: usize = 0;
    while i < n
        invariant
            n == s@.len(),
            i <= n,
            out@ == start + seq!['"'] + json_escaped(s@.subrange(0, i as int)),
        decreases n - i,
    {
        let c = s.get_char(i);
        push_escaped_char(out, c);
        proof {
            let t = s@.subrange(0, i as int + 1);
            assert(t.drop_last() =~= s@.subrange(0, i as int));
            assert(t.last() == c);
        }
        i = i + 1;
    }
    string_push(out, '"');
    assert(s@.subrange(0, n as int) =~= s@);
    assert(out@ =~= start + json_str(s@));
}

pub fn push_json_bool(out: &mut String, b: bool)
    ensures
        final(out)@ == old(out)@ + json_bool(b),
{
    if b {
        string_append(out, "true");
        proof {
            reveal_strlit("true");
        }
    } else {
        string_append(out, "false");
        proof {
            reveal_strlit("false");
        }
    }
    assert(final(out)@ =~= old(out)@ + json_bool(b));
}

pub fn push_json_opt_str(out: &mut String, s: &Option<String>)
    ensures
        final(out)@ == old(out)@ + json_opt_str(
            match s {
                Some(t) => Some(t@),
                None => None,
            },
        ),
{
    match s {
        Some(t) => push_json_str(out, t.as_str()),
        None => {
            string_append(out, "null");
            proof {
                reveal_strlit("null");
            }
            assert(final(out)@ =~= old(out)@ + json_null());
        },
    }
}

/// Elements joined by commas.
pub open spec fn json_join(items: Seq<Seq<char>>) -> Seq<char>
    decreases items.len(),
{
    if items.len() == 0 {
        Seq::empty()
    } else if items.len() == 1 {
        items[0]
    } else {
        json_join(items.drop_last()) + seq![','] + items.last()
    }
}

/// A JSON array of already-written elements.
pub open spec fn json_array(items: Seq<Seq<char>>) -> Seq<char> {
    seq!['['] + json_join(items) + seq![']']
}

/// A value with a JSON text.
pub trait JsonValue: View + Sized {
    spec fn json(v: Self::V) -> Seq<char>;

    fn write_json(&self, out: &mut String)
        ensures
            final(out)@ == old(out)@ + Self::json(self@),
    ;
}

impl JsonValue for String {
    open spec fn json(v: Seq<char>) -> Seq<char> {
        json_str(v)
    }

    fn write_json(&self, out: &mut String) {
        push_json_str(out, self.as_str());
    }
}

/// JSON texts of the views of a sequence of values.
pub open spec fn json_items<T: JsonValue>(s: Seq<T>) -> Seq<Seq<char>> {
    s.map_values(|x: T| T::json(x@))
}

/// Appends a JSON array of values.
pub fn push_json_list<T: JsonValue>(out: &mut String, items: &Vec<T>)
    ensures
        final(out)@ == old(out)@ + json_array(json_items(items@)),
{
    let ghost start = out@;
    string_push(out, '[');
    let n = items.len();
    let mut i: usize = 0;
    while i < n
        invariant
            n == items@.len(),
            i <= n,
            out@ == start + seq!['['] + json_join(json_items(items@.subrange(0, i as int))),
        decreases n - i,
    {
        let ghost before = out@;
        if i > 0 {
            string_push(out, ',');
        }
        items[i].write_json(out);
        proof {
            let t = items@.subrange(0, i as int + 1);
            let ji = json_items(t);
            assert(t.drop_last() =~= items@.subrange(0, i as int));
            assert(ji.drop_last() =~= json_items(items@.subrange(0, i as int)));
            assert(ji.last() == T::json(items@[i as int]@));
            if i == 0 {
                assert(json_items(items@.subrange(0, 0)) =~= Seq::empty());
                assert(json_join(json_items(items@.subrange(0, 0))) =~= Seq::<char>::empty());
                assert(out@ =~= start + seq!['['] + json_join(ji));
            } else {
                assert(out@ =~= start + seq!['['] + json_join(ji));
            }
        }
        i = i + 1;
    }
    string_push(out, ']');
    assert(items@.subrange(0, n as int) =~= items@);
    assert(out@ =~= start + json_array(json_items(items@)));
}

} // verus!
