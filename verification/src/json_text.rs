//! The compact JSON text written for the few small arrays the host keys records by: strings
//! escaped as `serde_json` escapes them, integers in decimal, no spaces.

use vstd::prelude::*;

use crate::text::decimal_of;

verus! {

/// The lower-case hexadecimal digit `d`, for `d` below 16.
pub open spec fn hex_digit(d: int) -> char {
    seq!['0', '1', '2', '3', '4', '5', '6', '7', '8', '9', 'a', 'b', 'c', 'd', 'e', 'f'][d]
}

/// How one character of a string is written inside the quotes: `"` and `\` behind a backslash;
/// backspace, tab, line feed, form feed and carriage return as `\b`, `\t`, `\n`, `\f`, `\r`; any
/// other character below U+0020 as `\u00` and two lower-case hex digits; every other character as
/// it is.
pub open spec fn json_escaped(c: char) -> Seq<char> {
    if c == '"' {
        seq!['\\', '"']
    } else if c == '\\' {
        seq!['\\', '\\']
    } else if c == '\u{8}' {
        seq!['\\', 'b']
    } else if c == '\t' {
        seq!['\\', 't']
    } else if c == '\n' {
        seq!['\\', 'n']
    } else if c == '\u{c}' {
        seq!['\\', 'f']
    } else if c == '\r' {
        seq!['\\', 'r']
    } else if (c as u32) < 0x20 {
        seq!['\\', 'u', '0', '0', hex_digit((c as u32) as int / 16), hex_digit((c as u32) as int % 16)]
    } else {
        seq![c]
    }
}

/// Every character of `s`, escaped, in order.
pub open spec fn json_escaped_all(s: Seq<char>) -> Seq<char>
    decreases s.len(),
{
    if s.len() == 0 {
        Seq::empty()
    } else {
        json_escaped_all(s.drop_last()) + json_escaped(s.last())
    }
}

/// A JSON string: `s` escaped, between double quotes.
pub open spec fn json_string_text(s: Seq<char>) -> Seq<char> {
    seq!['"'] + json_escaped_all(s) + seq!['"']
}

/// A JSON integer: its decimal digits, behind `-` when it is negative.
pub open spec fn json_int_text(n: int) -> Seq<char> {
    if n < 0 {
        seq!['-'] + decimal_of((-n) as nat)
    } else {
        decimal_of(n as nat)
    }
}

/// A JSON array of already written elements: `[`, the elements separated by `,`, `]`.
pub open spec fn json_array_text(elements: Seq<Seq<char>>) -> Seq<char> {
    seq!['['] + json_joined(elements) + seq![']']
}

/// The elements separated by `,`.
pub open spec fn json_joined(elements: Seq<Seq<char>>) -> Seq<char>
    decreases elements.len(),
{
    if elements.len() == 0 {
        Seq::empty()
    } else if elements.len() == 1 {
        elements[0]
    } else {
        json_joined(elements.drop_last()) + seq![','] + elements.last()
    }
}

} // verus!
