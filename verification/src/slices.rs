//! Cutting text at byte positions.

use vstd::prelude::*;

use crate::text;

verus! {

/// How many bytes UTF-8 spends on a character.
pub open spec fn width(c: char) -> int {
    if (c as int) < 0x80 {
        1
    } else if (c as int) < 0x800 {
        2
    } else if (c as int) < 0x1_0000 {
        3
    } else {
        4
    }
}

/// How many bytes UTF-8 spends on a text.
pub open spec fn byte_len(s: Seq<char>) -> int
    decreases s.len(),
{
    if s.len() == 0 {
        0
    } else {
        width(s[0]) + byte_len(s.skip(1))
    }
}

/// How many characters the first `b` bytes of a text hold; nothing where a
/// cut there would cut a character in two or lie beyond the end.
pub open spec fn cut(s: Seq<char>, b: int) -> Option<int>
    decreases s.len(),
{
    if b == 0 {
        Some(0)
    } else if b < 0 || s.len() == 0 {
        None
    } else {
        match cut(s.skip(1), b - width(s[0])) {
            Some(i) => Some(i + 1),
            None => None,
        }
    }
}

/// The characters that the bytes `a..b` of a text hold; nothing where such a
/// slice would cut a character in two.
pub open spec fn byte_slice(s: Seq<char>, a: int, b: int) -> Option<Seq<char>> {
    match (cut(s, a), cut(s, b)) {
        (Some(i), Some(j)) => Some(s.subrange(i, j)),
        _ => None,
    }
}

/// A cut behind more bytes is not before a cut behind fewer.
pub proof fn cuts_are_ordered(s: Seq<char>, a: int, b: int)
    requires
        0 <= a <= b,
    ensures
        cut(s, a) matches Some(i) ==> 0 <= i <= s.len(),
        cut(s, b) matches Some(j) ==> 0 <= j <= s.len(),
        cut(s, a) matches Some(i) ==> (cut(s, b) matches Some(j) ==> i <= j && (a < b ==> i < j)),
    decreases s.len(),
{
    if s.len() > 0 && b > 0 {
        let w = width(s[0]);
        if a >= w {
            cuts_are_ordered(s.skip(1), a - w, b - w);
        } else {
            if b >= w {
                cuts_are_ordered(s.skip(1), 0, b - w);
            }
            if a > 0 {
                assert(cut(s.skip(1), a - w) is None);
            }
        }
    }
}

/// All bytes of a text hold all its characters.
pub proof fn whole_cut(s: Seq<char>)
    ensures
        byte_len(s) >= 0,
        cut(s, byte_len(s)) == Some(s.len() as int),
    decreases s.len(),
{
    if s.len() > 0 {
        whole_cut(s.skip(1));
    }
}

/// In a text of one-byte characters every position is a cut.
pub proof fn narrow_cuts(s: Seq<char>)
    requires
        forall|k: int| 0 <= k < s.len() ==> width(#[trigger] s[k]) == 1,
    ensures
        byte_len(s) == s.len(),
        forall|b: int| 0 <= b <= s.len() ==> #[trigger] cut(s, b) == Some(b),
    decreases s.len(),
{
    if s.len() > 0 {
        assert forall|k: int| 0 <= k < s.skip(1).len() implies width(#[trigger] s.skip(1)[k])
            == 1 by {
            assert(width(s[k + 1]) == 1);
        }
        narrow_cuts(s.skip(1));
        assert(width(s[0]) == 1);
        assert forall|b: int| 0 <= b <= s.len() implies #[trigger] cut(s, b) == Some(b) by {
            if b > 0 {
                assert(cut(s.skip(1), b - 1) == Some(b - 1));
            }
        }
    }
}

fn char_width(c: char) -> (w: usize)
    ensures
        w == width(c),
{
    let v: u32 = c as u32;
    if v < 0x80 {
        1
    } else if v < 0x800 {
        2
    } else if v < 0x1_0000 {
        3
    } else {
        4
    }
}

/// The length in bytes of the characters from `from` on, or `limit + 1` where
/// it is more than `limit`.
pub fn bytes_up_to(s: &Vec<char>, from: usize, limit: usize) -> (n: usize)
    requires
        from <= s@.len(),
        limit < 1000,
    ensures
        byte_len(s@.skip(from as int)) <= limit ==> n == byte_len(s@.skip(from as int)),
        byte_len(s@.skip(from as int)) > limit ==> n == limit + 1,
{
    let mut used: usize = 0;
    let mut i: usize = from;
    while i < s.len()
        invariant
            from <= i <= s@.len(),
            used <= limit < 1000,
            used + byte_len(s@.skip(i as int)) == byte_len(s@.skip(from as int)),
        decreases s@.len() - i,
    {
        assert(s@.skip(i as int).skip(1) =~= s@.skip(i + 1));
        proof {
            whole_cut(s@.skip(i + 1));
        }
        used = used + char_width(s[i]);
        i = i + 1;
        if used > limit {
            return limit + 1;
        }
    }
    assert(s@.skip(i as int) =~= Seq::empty());
    used
}

/// How many of the characters from `from` on their first `b` bytes hold.
pub fn find_cut(s: &Vec<char>, from: usize, b: usize) -> (found: Option<usize>)
    requires
        from <= s@.len(),
    ensures
        match found {
            Some(i) => cut(s@.skip(from as int), b as int) == Some(i as int) && from + i <= s@.len(),
            None => cut(s@.skip(from as int), b as int) is None,
        },
    decreases s@.len() - from,
{
    if b == 0 {
        return Some(0);
    }
    if from == s.len() {
        return None;
    }
    assert(s@.skip(from as int).skip(1) =~= s@.skip(from + 1));
    let w: usize = char_width(s[from]);
    if w > b {
        assert(cut(s@.skip(from + 1), b - w) is None);
        return None;
    }
    match find_cut(s, from + 1, b - w) {
        Some(i) => Some(i + 1),
        None => None,
    }
}

/// Whether a text of more than `n` bytes can be cut behind them.
pub open spec fn can_shorten(s: Seq<char>, n: int) -> bool {
    byte_len(s) <= n || cut(s, n) is Some
}

/// The first `n` bytes of a text, or all of it where it has no more.
pub open spec fn shortened(s: Seq<char>, n: int) -> Seq<char> {
    if byte_len(s) <= n {
        s
    } else {
        match cut(s, n) {
            Some(i) => s.take(i),
            None => s,
        }
    }
}

/// The first `n` bytes of a text, or `None` where they would end inside a
/// character.
pub fn shorten(s: &str, n: usize) -> (out: Option<String>)
    requires
        n < 1000,
    ensures
        out is Some <==> can_shorten(s@, n as int),
        out matches Some(t) ==> t@ == shortened(s@, n as int),
{
    let chars: Vec<char> = text::chars_of(s);
    assert(chars@.skip(0) =~= chars@);
    if bytes_up_to(&chars, 0, n) <= n {
        return Some(s.to_owned());
    }
    match find_cut(&chars, 0, n) {
        Some(i) => {
            assert(chars@.subrange(0, i as int) =~= chars@.take(i as int));
            Some(text::string_of(&chars, 0, i))
        },
        None => None,
    }
}

/// A text shortened to `n` bytes has at most `n` bytes.
pub proof fn shortened_is_short(s: Seq<char>, n: int)
    requires
        0 <= n,
        can_shorten(s, n),
    ensures
        byte_len(shortened(s, n)) <= n,
{
    if byte_len(s) > n {
        cuts_are_ordered(s, n, n);
        cut_takes_its_bytes(s, n);
    }
}

proof fn cut_takes_its_bytes(s: Seq<char>, b: int)
    requires
        0 <= b,
        cut(s, b) is Some,
    ensures
        byte_len(s.take(cut(s, b)->0)) == b,
    decreases s.len(),
{
    cuts_are_ordered(s, b, b);
    let i = cut(s, b)->0;
    if b > 0 {
        let w = width(s[0]);
        if b >= w {
            cut_takes_its_bytes(s.skip(1), b - w);
            cuts_are_ordered(s.skip(1), b - w, b - w);
            assert(s.take(i).skip(1) =~= s.skip(1).take(i - 1));
        }
    } else {
        assert(s.take(0) =~= Seq::empty());
    }
}

/// A text costs at least one and at most four bytes for each character, one for
/// each of ASCII, and two texts together cost what they cost apart.
pub proof fn bytes_add_up(a: Seq<char>, b: Seq<char>)
    ensures
        byte_len(a + b) == byte_len(a) + byte_len(b),
        a.len() <= byte_len(a) <= 4 * a.len(),
        (forall|k: int| 0 <= k < a.len() ==> (#[trigger] a[k] as int) < 128) ==> byte_len(a)
            == a.len(),
        (forall|k: int| 0 <= k < a.len() ==> 128 <= (#[trigger] a[k] as int) < 0x800) ==> byte_len(
            a,
        ) == 2 * a.len(),
        (forall|k: int| 0 <= k < a.len() ==> 0x800 <= (#[trigger] a[k] as int) < 0x1_0000)
            ==> byte_len(a) == 3 * a.len(),
        (forall|k: int| 0 <= k < a.len() ==> 0x1_0000 <= (#[trigger] a[k] as int)) ==> byte_len(a)
            == 4 * a.len(),
    decreases a.len(),
{
    if a.len() > 0 {
        bytes_add_up(a.skip(1), b);
        assert((a + b).skip(1) =~= a.skip(1) + b);
        assert((a + b)[0] == a[0]);
        assert(forall|k: int| 0 <= k < a.skip(1).len() ==> (#[trigger] a.skip(1)[k]) == a[k + 1]);
    } else {
        assert(a + b =~= b);
    }
}

/// Shortening keeps the start of a text: all of it where it has no more than `n`
/// bytes, and else exactly its first `n` bytes.
pub proof fn shortening_keeps_the_start(s: Seq<char>, n: int)
    requires
        0 <= n,
        can_shorten(s, n),
    ensures
        shortened(s, n).len() <= s.len(),
        shortened(s, n) == s.take(shortened(s, n).len() as int),
        byte_len(s) <= n ==> shortened(s, n) == s,
        byte_len(s) > n ==> byte_len(shortened(s, n)) == n,
{
    if byte_len(s) <= n {
        assert(s.take(s.len() as int) =~= s);
    } else {
        cuts_are_ordered(s, n, n);
        cut_takes_its_bytes(s, n);
    }
}

/// A text can be shortened if and only if it is short enough or some of its
/// characters, from the start on, have exactly the bytes asked for.
pub proof fn shortening_cuts_no_character(s: Seq<char>, n: int, i: int)
    requires
        0 <= n,
        0 <= i <= s.len(),
        byte_len(s.take(i)) == n,
    ensures
        can_shorten(s, n),
        cut(s, n) == Some(i),
{
    prefix_is_cut(s, i);
}

proof fn prefix_is_cut(s: Seq<char>, i: int)
    requires
        0 <= i <= s.len(),
    ensures
        cut(s, byte_len(s.take(i))) == Some(i),
        byte_len(s.take(i)) >= 0,
    decreases i,
{
    if i > 0 {
        prefix_is_cut(s.skip(1), i - 1);
        assert(s.take(i).skip(1) =~= s.skip(1).take(i - 1));
    } else {
        assert(s.take(0) =~= Seq::empty());
    }
}

} // verus!
