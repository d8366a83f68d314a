//! Text helpers the rest of the library builds on: the characters of a string, UTF-16 accounting,
//! and ASCII byte tests.

use vstd::prelude::*;

verus! {

broadcast use vstd::string::group_string_axioms;

/// The characters of `s`, in order.
pub fn chars_of(s: &str) -> (chars: Vec<char>)
    ensures
        chars@ == s@,
{
    let mut chars: Vec<char> = Vec::new();
    for c in it: s.chars()
        invariant
            chars@ == it.seq().take(it.index() as int),
    {
        chars.push(c);
    }
    chars
}

} // verus!

verus! {

/// How many UTF-16 code units `c` takes: two for a character outside the basic plane.
pub open spec fn utf16_width(c: char) -> nat {
    if c >= '\u{10000}' {
        2
    } else {
        1
    }
}

/// How many UTF-16 code units `s` takes, which is a JavaScript string's `length`.
pub open spec fn utf16_units(s: Seq<char>) -> nat
    decreases s.len(),
{
    if s.len() == 0 {
        0
    } else {
        utf16_units(s.drop_last()) + utf16_width(s.last())
    }
}

/// `s.encode_utf16().count()`.
pub fn utf16_len(s: &str) -> (units: usize)
    requires
        utf16_units(s@) <= usize::MAX,
    ensures
        units == utf16_units(s@),
{
    let chars = chars_of(s);
    let mut units: usize = 0;
    let mut i: usize = 0;
    while i < chars.len()
        invariant
            0 <= i <= chars@.len(),
            chars@ == s@,
            utf16_units(s@) <= usize::MAX,
            units == utf16_units(chars@.take(i as int)),
        decreases chars@.len() - i,
    {
        proof {
            assert(chars@.take(i as int + 1).drop_last() == chars@.take(i as int));
            lemma_utf16_units_prefix(chars@, i as int + 1);
        }
        if chars[i] >= '\u{10000}' {
            units = units + 2;
        } else {
            units = units + 1;
        }
        i = i + 1;
    }
    proof {
        assert(chars@.take(chars@.len() as int) == chars@);
    }
    units
}

/// A prefix takes no more units than the whole.
pub proof fn lemma_utf16_units_prefix(s: Seq<char>, n: int)
    requires
        0 <= n <= s.len(),
    ensures
        utf16_units(s.take(n)) <= utf16_units(s),
    decreases s.len() - n,
{
    if n < s.len() {
        lemma_utf16_units_prefix(s, n + 1);
        assert(s.take(n + 1).drop_last() == s.take(n));
    } else {
        assert(s.take(n) == s);
    }
}

/// Whether two strings hold the same characters.
pub fn same_text(a: &str, b: &str) -> (same: bool)
    ensures
        same == (a@ == b@),
{
    let x = chars_of(a);
    let y = chars_of(b);
    if x.len() != y.len() {
        return false;
    }
    let mut i: usize = 0;
    while i < x.len()
        invariant
            0 <= i <= x@.len(),
            x@.len() == y@.len(),
            x@ == a@,
            y@ == b@,
            forall|j: int| 0 <= j < i ==> x@[j] == y@[j],
        decreases x@.len() - i,
    {
        if x[i] != y[i] {
            return false;
        }
        i = i + 1;
    }
    proof {
        assert(x@ =~= y@);
    }
    true
}

} // verus!

verus! {

/// `c` with an ASCII capital letter turned into its small letter; every other character unchanged.
pub open spec fn ascii_lower(c: char) -> char {
    if 'A' <= c && c <= 'Z' {
        ((c as u32) + 32) as char
    } else {
        c
    }
}

/// `s.to_ascii_lowercase()`, character by character.
pub open spec fn lower_text(s: Seq<char>) -> Seq<char> {
    s.map_values(|c: char| ascii_lower(c))
}

/// Whether `pat` occurs in `text` starting at `i`.
pub open spec fn occurs_at(text: Seq<char>, pat: Seq<char>, i: int) -> bool {
    0 <= i && i + pat.len() <= text.len() && text.subrange(i, i + pat.len()) == pat
}

/// Whether `pat` occurs anywhere in `text`.
pub open spec fn contains_text(text: Seq<char>, pat: Seq<char>) -> bool {
    exists|i: int| occurs_at(text, pat, i)
}

/// Whether `text` starts with `pat`.
pub open spec fn starts_with_text(text: Seq<char>, pat: Seq<char>) -> bool {
    occurs_at(text, pat, 0)
}

/// One character in ASCII small letters.
pub fn lower_char(c: char) -> (lower: char)
    ensures
        lower == ascii_lower(c),
{
    if 'A' <= c && c <= 'Z' {
        let b: u8 = c as u8;
        (b + 32) as char
    } else {
        c
    }
}

/// The characters of `s` in ASCII small letters.
pub fn lowered(s: &str) -> (lower: Vec<char>)
    ensures
        lower@ == lower_text(s@),
{
    let chars = chars_of(s);
    let mut lower: Vec<char> = Vec::new();
    let mut i: usize = 0;
    while i < chars.len()
        invariant
            0 <= i <= chars@.len(),
            chars@ == s@,
            lower@ == lower_text(s@).take(i as int),
        decreases chars@.len() - i,
    {
        let c = lower_char(chars[i]);
        lower.push(c);
        i = i + 1;
        proof {
            assert(lower@ =~= lower_text(s@).take(i as int));
        }
    }
    proof {
        assert(lower@ =~= lower_text(s@));
    }
    lower
}

/// Whether `pat` occurs in `text` at `i`.
pub fn matches_at(text: &Vec<char>, pat: &Vec<char>, i: usize) -> (found: bool)
    ensures
        found == occurs_at(text@, pat@, i as int),
{
    if i > text.len() || pat.len() > text.len() - i {
        return false;
    }
    let mut j: usize = 0;
    while j < pat.len()
        invariant
            0 <= j <= pat@.len(),
            text@.len() <= usize::MAX,
            i <= text@.len(),
            i + pat@.len() <= text@.len(),
            forall|k: int| 0 <= k < j ==> text@[i + k] == pat@[k],
        decreases pat@.len() - j,
    {
        if text[i + j] != pat[j] {
            proof {
                assert(text@.subrange(i as int, i + pat@.len())[j as int] != pat@[j as int]);
            }
            return false;
        }
        j = j + 1;
    }
    proof {
        assert(text@.subrange(i as int, i + pat@.len()) =~= pat@);
    }
    true
}

/// The first place at or after `from` where `pat` occurs in `text`.
pub fn find_from(text: &Vec<char>, pat: &Vec<char>, from: usize) -> (found: Option<usize>)
    ensures
        match found {
            Some(i) => from <= i && occurs_at(text@, pat@, i as int) && forall|j: int|
                from <= j < i ==> !occurs_at(text@, pat@, j),
            None => forall|j: int| from <= j ==> !occurs_at(text@, pat@, j),
        },
{
    let mut i: usize = from;
    if i > text.len() {
        return None;
    }
    while i <= text.len()
        invariant
            from <= i,
            i <= text@.len() + 1,
            forall|j: int| from <= j < i ==> !occurs_at(text@, pat@, j),
        decreases text@.len() + 1 - i,
    {
        if matches_at(text, pat, i) {
            return Some(i);
        }
        if i == text.len() {
            return None;
        }
        i = i + 1;
    }
    None
}

/// Whether `pat` occurs anywhere in `text`.
pub fn contains_chars(text: &Vec<char>, pat: &Vec<char>) -> (found: bool)
    ensures
        found == contains_text(text@, pat@),
{
    match find_from(text, pat, 0) {
        Some(i) => true,
        None => {
            proof {
                assert forall|j: int| !occurs_at(text@, pat@, j) by {
                    if j < 0 {
                    }
                }
            }
            false
        },
    }
}

} // verus!

verus! {

/// `i` is where `pat` first occurs in `text` at or after `from`.
pub open spec fn is_first_occurrence(text: Seq<char>, pat: Seq<char>, from: int, i: int) -> bool {
    from <= i && occurs_at(text, pat, i) && forall|j: int| from <= j < i ==> !occurs_at(text, pat, j)
}

/// Where `pat` first occurs in `text` at or after `from`.
pub open spec fn first_occurrence(text: Seq<char>, pat: Seq<char>, from: int) -> Option<int> {
    if exists|i: int| is_first_occurrence(text, pat, from, i) {
        Some(choose|i: int| is_first_occurrence(text, pat, from, i))
    } else {
        None
    }
}

/// There is one first occurrence.
pub proof fn lemma_first_occurrence(text: Seq<char>, pat: Seq<char>, from: int, i: int)
    requires
        is_first_occurrence(text, pat, from, i),
    ensures
        first_occurrence(text, pat, from) == Some(i),
{
    let c = choose|c: int| is_first_occurrence(text, pat, from, c);
    if c < i {
        assert(!occurs_at(text, pat, c));
    } else if i < c {
        assert(!occurs_at(text, pat, i));
    }
}

/// Where `pat` first occurs in `text` at or after `from`, found.
pub fn find_first(text: &Vec<char>, pat: &Vec<char>, from: usize) -> (found: Option<usize>)
    ensures
        match found {
            Some(i) => first_occurrence(text@, pat@, from as int) == Some(i as int),
            None => first_occurrence(text@, pat@, from as int) is None,
        },
{
    let found = find_from(text, pat, from);
    proof {
        match found {
            Some(i) => lemma_first_occurrence(text@, pat@, from as int, i as int),
            None => {
                if exists|i: int| is_first_occurrence(text@, pat@, from as int, i) {
                    let i = choose|i: int| is_first_occurrence(text@, pat@, from as int, i);
                    assert(!occurs_at(text@, pat@, i));
                }
            },
        }
    }
    found
}

/// How many leading characters of `s` are not `c`.
pub open spec fn len_before(s: Seq<char>, c: char) -> nat
    decreases s.len(),
{
    if s.len() == 0 {
        0
    } else if s[0] == c {
        0
    } else {
        1 + len_before(s.drop_first(), c)
    }
}

/// An ASCII letter or digit.
pub open spec fn ascii_alnum(c: char) -> bool {
    ('a' <= c && c <= 'z') || ('A' <= c && c <= 'Z') || ('0' <= c && c <= '9')
}

/// How many leading characters of `s` are ASCII letters or digits.
pub open spec fn alnum_run(s: Seq<char>) -> nat
    decreases s.len(),
{
    if s.len() == 0 {
        0
    } else if !ascii_alnum(s[0]) {
        0
    } else {
        1 + alnum_run(s.drop_first())
    }
}

/// The index of the first `c` at or after `from` in `chars`, or the end.
pub fn end_before(chars: &Vec<char>, from: usize, c: char) -> (end: usize)
    requires
        from <= chars@.len(),
    ensures
        end == from + len_before(chars@.skip(from as int), c),
        end <= chars@.len(),
{
    let mut i: usize = from;
    while i < chars.len() && chars[i] != c
        invariant
            from <= i <= chars@.len(),
            len_before(chars@.skip(from as int), c) == (i - from) + len_before(chars@.skip(i as int), c),
        decreases chars@.len() - i,
    {
        proof {
            assert(chars@.skip(i as int).drop_first() =~= chars@.skip(i as int + 1));
            assert(chars@.skip(i as int)[0] == chars@[i as int]);
        }
        i = i + 1;
    }
    proof {
        if i < chars@.len() {
            assert(chars@.skip(i as int)[0] == chars@[i as int]);
        } else {
            assert(chars@.skip(i as int).len() == 0);
        }
    }
    i
}

/// The index past the run of ASCII letters and digits starting at `from` in `chars`.
pub fn end_of_alnum(chars: &Vec<char>, from: usize) -> (end: usize)
    requires
        from <= chars@.len(),
    ensures
        end == from + alnum_run(chars@.skip(from as int)),
        end <= chars@.len(),
{
    let mut i: usize = from;
    while i < chars.len() && (('a' <= chars[i] && chars[i] <= 'z') || ('A' <= chars[i] && chars[i]
        <= 'Z') || ('0' <= chars[i] && chars[i] <= '9'))
        invariant
            from <= i <= chars@.len(),
            alnum_run(chars@.skip(from as int)) == (i - from) + alnum_run(chars@.skip(i as int)),
        decreases chars@.len() - i,
    {
        proof {
            assert(chars@.skip(i as int).drop_first() =~= chars@.skip(i as int + 1));
            assert(chars@.skip(i as int)[0] == chars@[i as int]);
        }
        i = i + 1;
    }
    proof {
        if i < chars@.len() {
            assert(chars@.skip(i as int)[0] == chars@[i as int]);
        } else {
            assert(chars@.skip(i as int).len() == 0);
        }
    }
    i
}

} // verus!

verus! {

/// A character of the Unicode `White_Space` property, which `str::trim` takes off.
pub open spec fn white_space(c: char) -> bool {
    ('\u{9}' <= c && c <= '\u{d}') || c == ' ' || c == '\u{85}' || c == '\u{a0}' || c == '\u{1680}'
        || ('\u{2000}' <= c && c <= '\u{200a}') || c == '\u{2028}' || c == '\u{2029}' || c
        == '\u{202f}' || c == '\u{205f}' || c == '\u{3000}'
}

/// How many leading characters of `s` are white space.
pub open spec fn lead_space(s: Seq<char>) -> nat
    decreases s.len(),
{
    if s.len() > 0 && white_space(s[0]) {
        1 + lead_space(s.drop_first())
    } else {
        0
    }
}

/// How many trailing characters of `s` are white space.
pub open spec fn trail_space(s: Seq<char>) -> nat
    decreases s.len(),
{
    if s.len() > 0 && white_space(s.last()) {
        1 + trail_space(s.drop_last())
    } else {
        0
    }
}

/// `s.trim()`: `s` without its leading and trailing white space.
pub open spec fn trimmed(s: Seq<char>) -> Seq<char> {
    if lead_space(s) >= s.len() {
        Seq::empty()
    } else {
        s.subrange(lead_space(s) as int, s.len() - trail_space(s))
    }
}

/// Whether `c` is white space.
pub fn is_white_space(c: char) -> (space: bool)
    ensures
        space == white_space(c),
{
    ('\u{9}' <= c && c <= '\u{d}') || c == ' ' || c == '\u{85}' || c == '\u{a0}' || c == '\u{1680}'
        || ('\u{2000}' <= c && c <= '\u{200a}') || c == '\u{2028}' || c == '\u{2029}' || c
        == '\u{202f}' || c == '\u{205f}' || c == '\u{3000}'
}

/// `s.trim()`, as an owned string.
pub fn trim_text(s: &str) -> (t: String)
    ensures
        t@ == trimmed(s@),
{
    let chars = chars_of(s);
    let n = chars.len();
    let mut a: usize = 0;
    proof {
        assert(s@.subrange(0, n as int) =~= s@);
    }
    while a < n && is_white_space(chars[a])
        invariant
            a <= n,
            n == chars@.len(),
            chars@ == s@,
            lead_space(s@) == a + lead_space(s@.subrange(a as int, n as int)),
        decreases n - a,
    {
        proof {
            assert(s@.subrange(a as int, n as int).drop_first() =~= s@.subrange(a + 1, n as int));
        }
        a = a + 1;
    }
    if a >= n {
        proof {
            assert(s@.subrange(a as int, n as int).len() == 0);
        }
        return String::new();
    }
    proof {
        assert(s@.subrange(a as int, n as int)[0] == chars@[a as int]);
        assert(lead_space(s@) == a);
    }
    let mut b: usize = n;
    proof {
        assert(s@.subrange(0, n as int) =~= s@);
    }
    while b > a && is_white_space(chars[b - 1])
        invariant
            a < n,
            a < b <= n,
            n == chars@.len(),
            chars@ == s@,
            !white_space(chars@[a as int]),
            trail_space(s@) == (n - b) + trail_space(s@.subrange(0, b as int)),
        decreases b - a,
    {
        proof {
            assert(s@.subrange(0, b as int).drop_last() =~= s@.subrange(0, b - 1));
        }
        b = b - 1;
    }
    proof {
        assert(b > a);
        assert(s@.subrange(0, b as int).last() == chars@[b - 1]);
        assert(trail_space(s@) == n - b);
    }
    String::from_str(s.substring_char(a, b))
}

} // verus!

verus! {

/// The character of the decimal digit `d`.
pub open spec fn digit_char(d: int) -> char {
    if d == 0 {
        '0'
    } else if d == 1 {
        '1'
    } else if d == 2 {
        '2'
    } else if d == 3 {
        '3'
    } else if d == 4 {
        '4'
    } else if d == 5 {
        '5'
    } else if d == 6 {
        '6'
    } else if d == 7 {
        '7'
    } else if d == 8 {
        '8'
    } else {
        '9'
    }
}

/// `n` in decimal, as an unsigned integer's `Display` writes it: no sign, no leading zero, `0`
/// for zero.
pub open spec fn decimal_of(n: nat) -> Seq<char>
    decreases n,
{
    if n < 10 {
        seq![digit_char(n as int)]
    } else {
        decimal_of(n / 10).push(digit_char((n % 10) as int))
    }
}

/// The decimal digit `d`, as text.
fn digit_text(d: u64) -> (t: &'static str)
    requires
        d < 10,
    ensures
        t@ == seq![digit_char(d as int)],
{
    proof {
        reveal_strlit("0");
        reveal_strlit("1");
        reveal_strlit("2");
        reveal_strlit("3");
        reveal_strlit("4");
        reveal_strlit("5");
        reveal_strlit("6");
        reveal_strlit("7");
        reveal_strlit("8");
        reveal_strlit("9");
    }
    if d == 0 {
        "0"
    } else if d == 1 {
        "1"
    } else if d == 2 {
        "2"
    } else if d == 3 {
        "3"
    } else if d == 4 {
        "4"
    } else if d == 5 {
        "5"
    } else if d == 6 {
        "6"
    } else if d == 7 {
        "7"
    } else if d == 8 {
        "8"
    } else {
        "9"
    }
}

/// `n` in decimal.
pub fn decimal_text(n: u64) -> (t: String)
    ensures
        t@ == decimal_of(n as nat),
    decreases n,
{
    if n < 10 {
        String::from_str(digit_text(n))
    } else {
        let mut t = decimal_text(n / 10);
        t.append(digit_text(n % 10));
        t
    }
}

} // verus!
