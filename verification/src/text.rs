//! Text building blocks: decimal numbers, padding, trimming, searching.
//!
//! Strings are modelled as sequences of characters.

use vstd::prelude::*;
use vstd::string::StringExecFns;

verus! {

/// `String::push` appends one character at the end.
pub assume_specification[ String::push ](s: &mut String, c: char)
    ensures
        final(s)@ == old(s)@.push(c),
;

/// The characters of `s`, in order.
pub fn chars_of(s: &str) -> (out: Vec<char>)
    ensures
        out@ == s@,
{
    let mut out: Vec<char> = Vec::new();
    for c in it: s.chars()
        invariant
            out@ == it.seq().take(it.index()),
    {
        out.push(c);
    }
    out
}

/// The string made of the characters `from..to` of `chars`.
pub fn string_of(chars: &Vec<char>, from: usize, to: usize) -> (out: String)
    requires
        from <= to <= chars@.len(),
    ensures
        out@ == chars@.subrange(from as int, to as int),
{
    let mut out: String = String::new();
    let mut i: usize = from;
    while i < to
        invariant
            from <= i <= to <= chars@.len(),
            out@ == chars@.subrange(from as int, i as int),
        decreases to - i,
    {
        out.push(chars[i]);
        i = i + 1;
        assert(chars@.subrange(from as int, i as int) == chars@.subrange(
            from as int,
            i - 1,
        ).push(chars@[i - 1]));
    }
    out
}

/// Whether two strings hold the same characters.
pub fn same_text(a: &str, b: &str) -> (same: bool)
    ensures
        same == (a@ == b@),
{
    a.to_owned() == b.to_owned()
}

/// The characters of an optional string.
pub open spec fn text_of(s: Option<String>) -> Option<Seq<char>> {
    match s {
        Some(t) => Some(t@),
        None => None,
    }
}

/// A copy of an optional string.
pub fn copy_text(s: &Option<String>) -> (out: Option<String>)
    ensures
        text_of(out) == text_of(*s),
        out == *s,
{
    match s {
        Some(t) => Some(t.clone()),
        None => None,
    }
}

/// The texts of a list of strings.
pub open spec fn texts(v: Seq<String>) -> Seq<Seq<char>> {
    v.map_values(|s: String| s@)
}

/// The text of an optional string, or nothing where there is none.
pub open spec fn text_or_empty(s: Option<Seq<char>>) -> Seq<char> {
    match s {
        Some(t) => t,
        None => Seq::empty(),
    }
}

/// A copy of an optional string's text, empty where there is none.
pub fn copy_or_empty(s: &Option<String>) -> (out: String)
    ensures
        out@ == text_or_empty(text_of(*s)),
{
    match s {
        Some(t) => t.clone(),
        None => String::new(),
    }
}

// ---------------------------------------------------------------------------
// Decimal numbers
// ---------------------------------------------------------------------------

/// The decimal digit `d`.
pub open spec fn digit_char(d: int) -> char {
    (48 + d) as char
}

/// `n` written in decimal, without leading zeros.
pub open spec fn decimal(n: nat) -> Seq<char>
    decreases n,
{
    if n < 10 {
        seq![digit_char(n as int)]
    } else {
        decimal(n / 10).push(digit_char((n % 10) as int))
    }
}

fn digit(d: u8) -> (c: char)
    requires
        d < 10,
    ensures
        c == digit_char(d as int),
{
    (48 + d) as char
}

/// `n` written in decimal, without leading zeros.
pub fn decimal_text(n: u64) -> (out: String)
    ensures
        out@ == decimal(n as nat),
    decreases n,
{
    if n < 10 {
        let mut out: String = String::new();
        out.push(digit(n as u8));
        assert(out@ == decimal(n as nat));
        out
    } else {
        let mut out: String = decimal_text(n / 10);
        out.push(digit((n % 10) as u8));
        out
    }
}

/// `n`, below one hundred, written with exactly two digits.
pub open spec fn two_digits(n: int) -> Seq<char> {
    seq![digit_char(n / 10), digit_char(n % 10)]
}

/// `n` written with exactly two decimal digits.
pub fn push_two_digits(out: &mut String, n: u8)
    requires
        n < 100,
    ensures
        final(out)@ == old(out)@ + two_digits(n as int),
{
    out.push(digit(n / 10));
    out.push(digit(n % 10));
    assert(out@ == old(out)@ + two_digits(n as int));
}

// ---------------------------------------------------------------------------
// Padding
// ---------------------------------------------------------------------------

/// `n` blanks.
pub open spec fn blanks(n: nat) -> Seq<char> {
    Seq::new(n, |i: int| ' ')
}

/// `s`, left-aligned in a field of `width` characters; longer text is kept.
pub open spec fn pad_right(s: Seq<char>, width: nat) -> Seq<char> {
    if s.len() >= width {
        s
    } else {
        s + blanks((width - s.len()) as nat)
    }
}

/// Appends `s` left-aligned in a field of `width` characters.
pub fn push_padded(out: &mut String, s: &str, width: usize)
    ensures
        final(out)@ == old(out)@ + pad_right(s@, width as nat),
{
    let n: usize = s.unicode_len();
    out.append(s);
    let mut i: usize = n;
    while i < width
        invariant
            n == s@.len(),
            n <= i,
            i <= width || i == n,
            out@ == old(out)@ + s@ + blanks((i - n) as nat),
        decreases width - i,
    {
        out.push(' ');
        i = i + 1;
        assert(blanks((i - n) as nat) == blanks((i - 1 - n) as nat).push(' '));
        assert(out@ == old(out)@ + s@ + blanks((i - n) as nat));
    }
    if n >= width {
        assert(out@ == old(out)@ + s@);
    } else {
        assert(out@ == old(out)@ + pad_right(s@, width as nat));
    }
}

// ---------------------------------------------------------------------------
// Character classes
// ---------------------------------------------------------------------------

/// Unicode white space.
pub open spec fn is_space(c: char) -> bool {
    matches!(
            c,
            '\u{9}'..='\u{d}' | ' ' | '\u{85}' | '\u{a0}' | '\u{1680}' | '\u{2000}'..='\u{200a}'
            | '\u{2028}' | '\u{2029}' | '\u{202f}' | '\u{205f}' | '\u{3000}'
        )
}

/// Whether `c` is Unicode white space.
pub fn space(c: char) -> (yes: bool)
    ensures
        yes == is_space(c),
{
    matches!(
            c,
            '\u{9}'..='\u{d}' | ' ' | '\u{85}' | '\u{a0}' | '\u{1680}' | '\u{2000}'..='\u{200a}'
            | '\u{2028}' | '\u{2029}' | '\u{202f}' | '\u{205f}' | '\u{3000}'
        )
}

/// A decimal digit of any script (Unicode general category Nd).
#[verifier::opaque]
pub open spec fn is_decimal_digit(c: char) -> bool {
    matches!(
            c,
            '\u{30}'..='\u{39}' | '\u{660}'..='\u{669}' | '\u{6f0}'..='\u{6f9}'
            | '\u{7c0}'..='\u{7c9}' | '\u{966}'..='\u{96f}' | '\u{9e6}'..='\u{9ef}'
            | '\u{a66}'..='\u{a6f}' | '\u{ae6}'..='\u{aef}' | '\u{b66}'..='\u{b6f}'
            | '\u{be6}'..='\u{bef}' | '\u{c66}'..='\u{c6f}' | '\u{ce6}'..='\u{cef}'
            | '\u{d66}'..='\u{d6f}' | '\u{de6}'..='\u{def}' | '\u{e50}'..='\u{e59}'
            | '\u{ed0}'..='\u{ed9}' | '\u{f20}'..='\u{f29}' | '\u{1040}'..='\u{1049}'
            | '\u{1090}'..='\u{1099}' | '\u{17e0}'..='\u{17e9}' | '\u{1810}'..='\u{1819}'
            | '\u{1946}'..='\u{194f}' | '\u{19d0}'..='\u{19d9}' | '\u{1a80}'..='\u{1a89}'
            | '\u{1a90}'..='\u{1a99}' | '\u{1b50}'..='\u{1b59}' | '\u{1bb0}'..='\u{1bb9}'
            | '\u{1c40}'..='\u{1c49}' | '\u{1c50}'..='\u{1c59}' | '\u{a620}'..='\u{a629}'
            | '\u{a8d0}'..='\u{a8d9}' | '\u{a900}'..='\u{a909}' | '\u{a9d0}'..='\u{a9d9}'
            | '\u{a9f0}'..='\u{a9f9}' | '\u{aa50}'..='\u{aa59}' | '\u{abf0}'..='\u{abf9}'
            | '\u{ff10}'..='\u{ff19}' | '\u{104a0}'..='\u{104a9}' | '\u{10d30}'..='\u{10d39}'
            | '\u{10d40}'..='\u{10d49}' | '\u{11066}'..='\u{1106f}' | '\u{110f0}'..='\u{110f9}'
            | '\u{11136}'..='\u{1113f}' | '\u{111d0}'..='\u{111d9}' | '\u{112f0}'..='\u{112f9}'
            | '\u{11450}'..='\u{11459}' | '\u{114d0}'..='\u{114d9}' | '\u{11650}'..='\u{11659}'
            | '\u{116c0}'..='\u{116c9}' | '\u{116d0}'..='\u{116e3}' | '\u{11730}'..='\u{11739}'
            | '\u{118e0}'..='\u{118e9}' | '\u{11950}'..='\u{11959}' | '\u{11bf0}'..='\u{11bf9}'
            | '\u{11c50}'..='\u{11c59}' | '\u{11d50}'..='\u{11d59}' | '\u{11da0}'..='\u{11da9}'
            | '\u{11f50}'..='\u{11f59}' | '\u{16130}'..='\u{16139}' | '\u{16a60}'..='\u{16a69}'
            | '\u{16ac0}'..='\u{16ac9}' | '\u{16b50}'..='\u{16b59}' | '\u{16d70}'..='\u{16d79}'
            | '\u{1ccf0}'..='\u{1ccf9}' | '\u{1d7ce}'..='\u{1d7ff}' | '\u{1e140}'..='\u{1e149}'
            | '\u{1e2f0}'..='\u{1e2f9}' | '\u{1e4f0}'..='\u{1e4f9}' | '\u{1e5f1}'..='\u{1e5fa}'
            | '\u{1e950}'..='\u{1e959}' | '\u{1fbf0}'..='\u{1fbf9}'
        )
}

/// Whether `c` is a decimal digit of any script.
pub fn decimal_digit(c: char) -> (yes: bool)
    ensures
        yes == is_decimal_digit(c),
{
    proof {
        reveal(is_decimal_digit);
    }
    matches!(
            c,
            '\u{30}'..='\u{39}' | '\u{660}'..='\u{669}' | '\u{6f0}'..='\u{6f9}'
            | '\u{7c0}'..='\u{7c9}' | '\u{966}'..='\u{96f}' | '\u{9e6}'..='\u{9ef}'
            | '\u{a66}'..='\u{a6f}' | '\u{ae6}'..='\u{aef}' | '\u{b66}'..='\u{b6f}'
            | '\u{be6}'..='\u{bef}' | '\u{c66}'..='\u{c6f}' | '\u{ce6}'..='\u{cef}'
            | '\u{d66}'..='\u{d6f}' | '\u{de6}'..='\u{def}' | '\u{e50}'..='\u{e59}'
            | '\u{ed0}'..='\u{ed9}' | '\u{f20}'..='\u{f29}' | '\u{1040}'..='\u{1049}'
            | '\u{1090}'..='\u{1099}' | '\u{17e0}'..='\u{17e9}' | '\u{1810}'..='\u{1819}'
            | '\u{1946}'..='\u{194f}' | '\u{19d0}'..='\u{19d9}' | '\u{1a80}'..='\u{1a89}'
            | '\u{1a90}'..='\u{1a99}' | '\u{1b50}'..='\u{1b59}' | '\u{1bb0}'..='\u{1bb9}'
            | '\u{1c40}'..='\u{1c49}' | '\u{1c50}'..='\u{1c59}' | '\u{a620}'..='\u{a629}'
            | '\u{a8d0}'..='\u{a8d9}' | '\u{a900}'..='\u{a909}' | '\u{a9d0}'..='\u{a9d9}'
            | '\u{a9f0}'..='\u{a9f9}' | '\u{aa50}'..='\u{aa59}' | '\u{abf0}'..='\u{abf9}'
            | '\u{ff10}'..='\u{ff19}' | '\u{104a0}'..='\u{104a9}' | '\u{10d30}'..='\u{10d39}'
            | '\u{10d40}'..='\u{10d49}' | '\u{11066}'..='\u{1106f}' | '\u{110f0}'..='\u{110f9}'
            | '\u{11136}'..='\u{1113f}' | '\u{111d0}'..='\u{111d9}' | '\u{112f0}'..='\u{112f9}'
            | '\u{11450}'..='\u{11459}' | '\u{114d0}'..='\u{114d9}' | '\u{11650}'..='\u{11659}'
            | '\u{116c0}'..='\u{116c9}' | '\u{116d0}'..='\u{116e3}' | '\u{11730}'..='\u{11739}'
            | '\u{118e0}'..='\u{118e9}' | '\u{11950}'..='\u{11959}' | '\u{11bf0}'..='\u{11bf9}'
            | '\u{11c50}'..='\u{11c59}' | '\u{11d50}'..='\u{11d59}' | '\u{11da0}'..='\u{11da9}'
            | '\u{11f50}'..='\u{11f59}' | '\u{16130}'..='\u{16139}' | '\u{16a60}'..='\u{16a69}'
            | '\u{16ac0}'..='\u{16ac9}' | '\u{16b50}'..='\u{16b59}' | '\u{16d70}'..='\u{16d79}'
            | '\u{1ccf0}'..='\u{1ccf9}' | '\u{1d7ce}'..='\u{1d7ff}' | '\u{1e140}'..='\u{1e149}'
            | '\u{1e2f0}'..='\u{1e2f9}' | '\u{1e4f0}'..='\u{1e4f9}' | '\u{1e5f1}'..='\u{1e5fa}'
            | '\u{1e950}'..='\u{1e959}' | '\u{1fbf0}'..='\u{1fbf9}'
        )
}

// ---------------------------------------------------------------------------
// Searching and trimming
// ---------------------------------------------------------------------------

/// Whether the characters of `needle` stand in `hay` from position `at` on.
pub open spec fn found_at(hay: Seq<char>, needle: Seq<char>, at: int) -> bool {
    &&& 0 <= at
    &&& at + needle.len() <= hay.len()
    &&& hay.subrange(at, at + needle.len()) == needle
}

/// Whether the characters of `needle` stand in `hay` from position `at` on.
pub fn is_at(hay: &Vec<char>, needle: &Vec<char>, at: usize) -> (yes: bool)
    requires
        at <= hay@.len(),
    ensures
        yes == found_at(hay@, needle@, at as int),
{
    if hay.len() - at < needle.len() {
        return false;
    }
    let mut i: usize = 0;
    while i < needle.len()
        invariant
            i <= needle@.len(),
            at + needle@.len() <= hay.len(),
            hay.len() == hay@.len(),
            forall|k: int| 0 <= k < i ==> hay@[at + k] == needle@[k],
        decreases needle@.len() - i,
    {
        if hay[at + i] != needle[i] {
            assert(hay@.subrange(at as int, at + needle@.len())[i as int] != needle@[i as int]);
            return false;
        }
        i = i + 1;
    }
    assert(hay@.subrange(at as int, at + needle@.len()) =~= needle@);
    true
}

/// Whether `s` begins with `prefix`.
pub fn starts_with(s: &str, prefix: &str) -> (yes: bool)
    ensures
        yes == found_at(s@, prefix@, 0),
{
    let hay: Vec<char> = chars_of(s);
    let needle: Vec<char> = chars_of(prefix);
    is_at(&hay, &needle, 0)
}

/// Whether `needle` occurs somewhere in `hay`.
pub open spec fn occurs_in(hay: Seq<char>, needle: Seq<char>) -> bool {
    exists|at: int| found_at(hay, needle, at)
}

/// Whether `needle` occurs somewhere in `s`.
pub fn contains(s: &str, needle: &str) -> (yes: bool)
    ensures
        yes == occurs_in(s@, needle@),
{
    let hay: Vec<char> = chars_of(s);
    let pat: Vec<char> = chars_of(needle);
    let mut at: usize = 0;
    while at < hay.len()
        invariant
            hay@ == s@,
            pat@ == needle@,
            at <= hay@.len(),
            forall|k: int| 0 <= k < at ==> !found_at(s@, needle@, k),
        decreases hay@.len() - at,
    {
        if is_at(&hay, &pat, at) {
            return true;
        }
        at = at + 1;
    }
    let last: bool = is_at(&hay, &pat, at);
    assert(last == found_at(s@, needle@, at as int));
    assert(forall|k: int| k > hay@.len() ==> !found_at(s@, needle@, k));
    last
}

/// The first position from `i` on whose character is not white space.
pub open spec fn skip_space(s: Seq<char>, i: int) -> int
    decreases s.len() - i,
{
    if 0 <= i < s.len() && is_space(s[i]) {
        skip_space(s, i + 1)
    } else {
        i
    }
}

/// The position after the last character before `j` that is not white space,
/// but not less than `i`.
pub open spec fn drop_space(s: Seq<char>, i: int, j: int) -> int
    decreases j,
{
    if 0 <= i < j <= s.len() && is_space(s[j - 1]) {
        drop_space(s, i, j - 1)
    } else {
        j
    }
}

/// `s` without the white space at its two ends.
pub open spec fn trimmed(s: Seq<char>) -> Seq<char> {
    let i = skip_space(s, 0);
    s.subrange(i, drop_space(s, i, s.len() as int))
}

/// The characters of `s` without the white space at its two ends.
pub fn trim_chars(s: &Vec<char>) -> (out: Vec<char>)
    ensures
        out@ == trimmed(s@),
{
    let mut i: usize = 0;
    while i < s.len() && space(s[i])
        invariant
            i <= s@.len(),
            skip_space(s@, i as int) == skip_space(s@, 0),
        decreases s@.len() - i,
    {
        i = i + 1;
    }
    assert(skip_space(s@, i as int) == i);
    let mut j: usize = s.len();
    while i < j && space(s[j - 1])
        invariant
            i <= j <= s@.len(),
            drop_space(s@, i as int, j as int) == drop_space(s@, i as int, s@.len() as int),
        decreases j,
    {
        j = j - 1;
    }
    assert(drop_space(s@, i as int, j as int) == j);
    let mut out: Vec<char> = Vec::new();
    let mut k: usize = i;
    while k < j
        invariant
            i <= k <= j <= s@.len(),
            out@ == s@.subrange(i as int, k as int),
        decreases j - k,
    {
        out.push(s[k]);
        k = k + 1;
        assert(s@.subrange(i as int, k as int) == s@.subrange(i as int, k - 1).push(s@[k - 1]));
    }
    out
}

// ---------------------------------------------------------------------------
// Lists
// ---------------------------------------------------------------------------

/// The texts of a list of string literals.
pub open spec fn words(v: Seq<&'static str>) -> Seq<Seq<char>> {
    v.map_values(|s: &'static str| s@)
}

/// The parts, one after the other, with `sep` between them.
pub open spec fn separated(parts: Seq<Seq<char>>, sep: Seq<char>) -> Seq<char>
    decreases parts.len(),
{
    if parts.len() == 0 {
        Seq::empty()
    } else if parts.len() == 1 {
        parts[0]
    } else {
        separated(parts.drop_last(), sep) + sep + parts.last()
    }
}

/// The parts, one after the other, with `sep` between them.
pub fn join_words(parts: &Vec<&'static str>, sep: &str) -> (out: String)
    ensures
        out@ == separated(words(parts@), sep@),
{
    let mut out: String = String::new();
    let mut i: usize = 0;
    proof {
        assert(words(parts@).take(0) =~= Seq::empty());
    }
    while i < parts.len()
        invariant
            i <= parts@.len(),
            out@ == separated(words(parts@).take(i as int), sep@),
        decreases parts@.len() - i,
    {
        let ghost taken = words(parts@).take(i as int);
        let ghost next = words(parts@).take(i + 1);
        if i > 0 {
            out.append(sep);
        }
        out.append(parts[i]);
        proof {
            assert(next.drop_last() =~= taken);
            assert(next.last() == parts@[i as int]@);
            assert(out@ =~= separated(next, sep@));
        }
        i = i + 1;
    }
    assert(words(parts@).take(parts@.len() as int) =~= words(parts@));
    out
}

// ---------------------------------------------------------------------------
// Case
// ---------------------------------------------------------------------------

/// The lower-case form of an ASCII letter; any other character is kept.
pub open spec fn lower_char(c: char) -> char {
    if 'A' <= c && c <= 'Z' {
        (c as int + 32) as char
    } else {
        c
    }
}

/// `s` with its ASCII letters in lower case.
pub open spec fn lower(s: Seq<char>) -> Seq<char> {
    s.map_values(|c: char| lower_char(c))
}

/// `s` with its ASCII letters in lower case.
pub fn to_lower(s: &str) -> (out: String)
    ensures
        out@ == lower(s@),
{
    let chars: Vec<char> = chars_of(s);
    let mut out: String = String::new();
    let mut i: usize = 0;
    while i < chars.len()
        invariant
            i <= chars@.len(),
            chars@ == s@,
            out@ == lower(s@).take(i as int),
        decreases chars@.len() - i,
    {
        let c: char = chars[i];
        let l: char = if 'A' <= c && c <= 'Z' {
            (c as u8 + 32) as char
        } else {
            c
        };
        out.push(l);
        i = i + 1;
        assert(out@ =~= lower(s@).take(i as int));
    }
    assert(lower(s@).take(chars@.len() as int) =~= lower(s@));
    out
}

/// The capital form of an ASCII letter; any other character is kept.
pub open spec fn upper_char(c: char) -> char {
    if 'a' <= c && c <= 'z' {
        (c as int - 32) as char
    } else {
        c
    }
}

/// `s` with its ASCII letters in capitals.
pub open spec fn upper(s: Seq<char>) -> Seq<char> {
    s.map_values(|c: char| upper_char(c))
}

/// `s` with its ASCII letters in capitals.
pub fn to_upper(s: &str) -> (out: String)
    ensures
        out@ == upper(s@),
{
    let chars: Vec<char> = chars_of(s);
    let mut out: String = String::new();
    let mut i: usize = 0;
    while i < chars.len()
        invariant
            i <= chars@.len(),
            chars@ == s@,
            out@ == upper(s@).take(i as int),
        decreases chars@.len() - i,
    {
        let c: char = chars[i];
        let u: char = if 'a' <= c && c <= 'z' {
            (c as u8 - 32) as char
        } else {
            c
        };
        out.push(u);
        i = i + 1;
        assert(out@ =~= upper(s@).take(i as int));
    }
    assert(upper(s@).take(chars@.len() as int) =~= upper(s@));
    out
}

// ---------------------------------------------------------------------------
// What the building blocks mean
// ---------------------------------------------------------------------------

/// Numbers are written without leading zeros, and a digit behind a number makes
/// it ten times as much and that digit more.
pub proof fn decimals_have_no_leading_zero(n: nat, d: int)
    requires
        0 <= d < 10,
    ensures
        decimal(n).len() > 0,
        n > 0 ==> decimal(n)[0] != '0',
        decimal(0) == seq!['0'],
        n > 0 ==> decimal((10 * n + d) as nat) == decimal(n).push((48 + d) as char),
        decimal(d as nat) == seq![(48 + d) as char],
    decreases n,
{
    if n >= 10 {
        decimals_have_no_leading_zero(n / 10, 0);
        assert(decimal(n)[0] == decimal(n / 10)[0]);
    }
    if n > 0 {
        assert((10 * n + d) / 10 == n && (10 * n + d) % 10 == d);
    }
}

/// Two digits are the tens and the units.
pub proof fn two_digits_are_tens_and_units(n: int)
    requires
        0 <= n < 100,
    ensures
        two_digits(n).len() == 2,
        '0' <= two_digits(n)[0] <= '9',
        '0' <= two_digits(n)[1] <= '9',
        (two_digits(n)[0] as int - 48) * 10 + (two_digits(n)[1] as int - 48) == n,
{
}

/// A text in a field begins with the text, is followed by blanks only, and is as
/// long as the field or the text, whichever is longer.
pub proof fn fields_are_filled_with_blanks(s: Seq<char>, width: nat)
    ensures
        pad_right(s, width).len() == if s.len() > width {
            s.len()
        } else {
            width
        },
        pad_right(s, width).take(s.len() as int) == s,
        forall|i: int|
            s.len() <= i < pad_right(s, width).len() ==> #[trigger] pad_right(s, width)[i] == ' ',
{
    assert(pad_right(s, width).take(s.len() as int) =~= s);
}

/// Among the ASCII characters, white space is the blank and what runs from the
/// tabulator to the carriage return; letters, digits and signs are not.
pub proof fn ascii_space(c: char)
    requires
        (c as int) < 128,
    ensures
        is_space(c) <==> c as int == 32 || 9 <= c as int <= 13,
        is_decimal_digit(c) <==> '0' <= c <= '9',
{
    reveal(is_decimal_digit);
}

/// A text stands where every one of its characters does, and it occurs in
/// whatever is put around it.
pub proof fn texts_are_found_by_their_characters(
    hay: Seq<char>,
    needle: Seq<char>,
    at: int,
    before: Seq<char>,
    behind: Seq<char>,
)
    ensures
        found_at(hay, needle, at) <==> 0 <= at && at + needle.len() <= hay.len() && forall|k: int|
            0 <= k < needle.len() ==> #[trigger] hay[at + k] == needle[k],
        occurs_in(before + needle + behind, needle),
        occurs_in(hay, needle) ==> needle.len() <= hay.len(),
{
    if 0 <= at && at + needle.len() <= hay.len() {
        let part = hay.subrange(at, at + needle.len());
        if part == needle {
            assert forall|k: int| 0 <= k < needle.len() implies #[trigger] hay[at + k]
                == needle[k] by {
                assert(part[k] == hay[at + k]);
            }
        }
        if forall|k: int| 0 <= k < needle.len() ==> #[trigger] hay[at + k] == needle[k] {
            assert forall|k: int| 0 <= k < needle.len() implies part[k] == needle[k] by {
                assert(part[k] == hay[at + k]);
            }
            assert(part =~= needle);
        }
    }
    let whole = before + needle + behind;
    assert(whole.subrange(before.len() as int, before.len() as int + needle.len()) =~= needle);
    assert(found_at(whole, needle, before.len() as int));
}

/// Trimming takes away white space at both ends, all of it, and nothing else.
pub proof fn trimming_takes_only_space(s: Seq<char>) -> (range: (int, int))
    ensures
        0 <= range.0 <= range.1 <= s.len(),
        trimmed(s) == s.subrange(range.0, range.1),
        forall|k: int| 0 <= k < range.0 ==> is_space(#[trigger] s[k]),
        forall|k: int| range.1 <= k < s.len() ==> is_space(#[trigger] s[k]),
        trimmed(s).len() > 0 ==> !is_space(trimmed(s)[0]) && !is_space(trimmed(s).last()),
{
    let i = skip_space(s, 0);
    skips_space(s, 0);
    drops_space(s, i, s.len() as int);
    (i, drop_space(s, i, s.len() as int))
}

proof fn skips_space(s: Seq<char>, i: int)
    requires
        0 <= i <= s.len(),
    ensures
        i <= skip_space(s, i) <= s.len(),
        forall|k: int| i <= k < skip_space(s, i) ==> is_space(#[trigger] s[k]),
        skip_space(s, i) < s.len() ==> !is_space(s[skip_space(s, i)]),
    decreases s.len() - i,
{
    if i < s.len() && is_space(s[i]) {
        skips_space(s, i + 1);
    }
}

proof fn drops_space(s: Seq<char>, i: int, j: int)
    requires
        0 <= i <= j <= s.len(),
    ensures
        i <= drop_space(s, i, j) <= j,
        forall|k: int| drop_space(s, i, j) <= k < j ==> is_space(#[trigger] s[k]),
        drop_space(s, i, j) > i ==> !is_space(s[drop_space(s, i, j) - 1]),
    decreases j,
{
    if i < j && is_space(s[j - 1]) {
        drops_space(s, i, j - 1);
    }
}

/// A text that begins and ends with something else than white space is what is
/// left of it, whatever white space is put around it.
pub proof fn trimming_finds_the_text(before: Seq<char>, s: Seq<char>, behind: Seq<char>)
    requires
        s.len() > 0,
        !is_space(s[0]),
        !is_space(s.last()),
        forall|k: int| 0 <= k < before.len() ==> is_space(#[trigger] before[k]),
        forall|k: int| 0 <= k < behind.len() ==> is_space(#[trigger] behind[k]),
    ensures
        trimmed(before + s + behind) == s,
{
    let whole = before + s + behind;
    let (i, j) = trimming_takes_only_space(whole);
    let a = before.len() as int;
    let b = a + s.len();
    assert(whole[a] == s[0] && whole[b - 1] == s.last());
    if i > a {
        assert(is_space(whole[a]));
    }
    if j < b {
        assert(is_space(whole[b - 1]));
    }
    if i < a {
        assert(whole[i] == before[i]);
        assert(trimmed(whole)[0] == whole[i]);
    }
    if j > b {
        assert(whole[j - 1] == behind[j - 1 - b]);
        assert(trimmed(whole).last() == whole[j - 1]);
    }
    assert(whole.subrange(a, b) =~= s);
}

/// Parts are put one after the other, each but the first behind a separator.
pub proof fn parts_are_separated(parts: Seq<Seq<char>>, next: Seq<char>, sep: Seq<char>)
    ensures
        separated(Seq::empty(), sep).len() == 0,
        separated(seq![next], sep) == next,
        parts.len() > 0 ==> separated(parts.push(next), sep) == separated(parts, sep) + sep + next,
{
    assert(parts.push(next).drop_last() =~= parts);
}

/// Lower case changes the capitals of the ASCII alphabet to the letter of the
/// same rank, and leaves everything else; upper case is its counterpart.
pub proof fn case_changes_letters_only(s: Seq<char>, i: int)
    requires
        0 <= i < s.len(),
    ensures
        lower(s).len() == s.len(),
        upper(s).len() == s.len(),
        'A' <= s[i] <= 'Z' ==> lower(s)[i] as int - 'a' as int == s[i] as int - 'A' as int,
        !('A' <= s[i] <= 'Z') ==> lower(s)[i] == s[i],
        'a' <= s[i] <= 'z' ==> upper(s)[i] as int - 'A' as int == s[i] as int - 'a' as int,
        !('a' <= s[i] <= 'z') ==> upper(s)[i] == s[i],
        lower(upper(s)) == lower(s),
        upper(lower(s)) == upper(s),
{
    assert(lower(upper(s)) =~= lower(s));
    assert(upper(lower(s)) =~= upper(s));
}

/// The text of an optional string is that string, or nothing.
pub proof fn missing_text_is_empty(s: Option<Seq<char>>)
    ensures
        s matches Some(t) ==> text_or_empty(s) == t,
        s is None ==> text_or_empty(s).len() == 0,
{
}

} // verus!
