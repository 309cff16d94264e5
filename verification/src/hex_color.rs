//! Colors written in hexadecimal: `#RGB` and `#RRGGBB`, each with an optional
//! alpha that is ignored.

use vstd::prelude::*;
use vstd::string::StringExecFns;

use crate::config::ColorDef;
use crate::slices;
use crate::text;

verus! {

/// Why a text is not a color.
#[derive(Debug)]
pub enum HexColorError {
    /// The trimmed text does not start with `#`.
    MissingHash(String),
    /// The trimmed text has the wrong number of bytes.
    BadLength(String),
    /// A channel is not a hexadecimal number.
    BadDigit,
}

/// What a [`HexColorError`] says.
#[verifier::ext_equal]
pub enum HexColorFault {
    MissingHash(Seq<char>),
    BadLength(Seq<char>),
    BadDigit,
}

impl View for HexColorError {
    type V = HexColorFault;

    open spec fn view(&self) -> HexColorFault {
        match self {
            HexColorError::MissingHash(s) => HexColorFault::MissingHash(s@),
            HexColorError::BadLength(s) => HexColorFault::BadLength(s@),
            HexColorError::BadDigit => HexColorFault::BadDigit,
        }
    }
}

impl HexColorFault {
    /// The message for the user.
    pub open spec fn text(self) -> Seq<char> {
        match self {
            HexColorFault::MissingHash(s) => "hex color must start with '#': "@ + s,
            HexColorFault::BadLength(s) => "invalid hex color length: "@ + s,
            HexColorFault::BadDigit => "invalid digit found in string"@,
        }
    }
}

impl HexColorError {
    /// The message for the user.
    pub fn message(&self) -> (text: String)
        ensures
            text@ == self@.text(),
    {
        match self {
            HexColorError::MissingHash(s) => {
                let mut out: String = "hex color must start with '#': ".to_owned();
                out.append(s.as_str());
                out
            },
            HexColorError::BadLength(s) => {
                let mut out: String = "invalid hex color length: ".to_owned();
                out.append(s.as_str());
                out
            },
            HexColorError::BadDigit => "invalid digit found in string".to_owned(),
        }
    }
}

/// The value of a hexadecimal digit.
pub open spec fn hex_digit(c: char) -> Option<int> {
    if '0' <= c && c <= '9' {
        Some(c as int - 48)
    } else if 'a' <= c && c <= 'f' {
        Some(c as int - 87)
    } else if 'A' <= c && c <= 'F' {
        Some(c as int - 55)
    } else {
        None
    }
}

/// The value of a color channel: one digit stands for two equal ones; of two
/// characters the first may be a plus sign.
pub open spec fn channel_value(g: Seq<char>) -> Option<u8> {
    if g.len() == 1 {
        match hex_digit(g[0]) {
            Some(d) => Some((d * 17) as u8),
            None => None,
        }
    } else if g.len() == 2 {
        match (hex_digit(g[0]), hex_digit(g[1])) {
            (Some(hi), Some(lo)) => Some((hi * 16 + lo) as u8),
            (None, Some(lo)) => if g[0] == '+' {
                Some(lo as u8)
            } else {
                None
            },
            _ => None,
        }
    } else {
        None
    }
}

/// The outcome of reading a color: nothing where a byte slice would cut a
/// character in two, else a color or a fault.
pub type Outcome = Option<Result<ColorDef, HexColorFault>>;

/// Three channels of `w` bytes each, read from left to right.
pub open spec fn channels(h: Seq<char>, w: int) -> Outcome {
    match slices::byte_slice(h, 0, w) {
        None => None,
        Some(g) => match channel_value(g) {
            None => Some(Err(HexColorFault::BadDigit)),
            Some(r) => match slices::byte_slice(h, w, 2 * w) {
                None => None,
                Some(g) => match channel_value(g) {
                    None => Some(Err(HexColorFault::BadDigit)),
                    Some(green) => match slices::byte_slice(h, 2 * w, 3 * w) {
                        None => None,
                        Some(g) => match channel_value(g) {
                            None => Some(Err(HexColorFault::BadDigit)),
                            Some(b) => Some(Ok(ColorDef { r, g: green, b })),
                        },
                    },
                },
            },
        },
    }
}

/// The outcome of reading `s` as a color.
///
/// White space at the ends does not count. After `#` stand three digits, one
/// for each channel, or three pairs of digits. With four or eight bytes the
/// last is the alpha: it is dropped, and the rest is read as if it stood
/// alone.
pub open spec fn hex_color(s: Seq<char>) -> Outcome
    decreases s.len(),
    via hex_color_ends
{
    let t = text::trimmed(s);
    if t.len() == 0 || t[0] != '#' {
        Some(Err(HexColorFault::MissingHash(t)))
    } else {
        let h = t.skip(1);
        let n = slices::byte_len(h);
        if n == 3 {
            channels(h, 1)
        } else if n == 6 {
            channels(h, 2)
        } else if n == 4 || n == 8 {
            match slices::byte_slice(
                h,
                0,
                if n == 4 {
                    3
                } else {
                    6
                },
            ) {
                None => None,
                Some(rgb) => hex_color(seq!['#'] + rgb),
            }
        } else {
            Some(Err(HexColorFault::BadLength(t)))
        }
    }
}

#[via_fn]
proof fn hex_color_ends(s: Seq<char>) {
    trimmed_is_part(s);
    let t = text::trimmed(s);
    if t.len() > 0 {
        let h = t.skip(1);
        let n = slices::byte_len(h);
        slices::whole_cut(h);
        if n == 4 || n == 8 {
            let m = if n == 4 {
                3int
            } else {
                6int
            };
            slices::cuts_are_ordered(h, m, n);
            slices::cuts_are_ordered(h, 0, m);
        }
    }
}

/// Trimming makes no text longer.
proof fn trimmed_is_part(s: Seq<char>)
    ensures
        0 <= text::skip_space(s, 0) <= text::drop_space(
            s,
            text::skip_space(s, 0),
            s.len() as int,
        ) <= s.len(),
        text::trimmed(s).len() <= s.len(),
{
    skip_space_in_range(s, 0);
    drop_space_in_range(s, text::skip_space(s, 0), s.len() as int);
}

proof fn skip_space_in_range(s: Seq<char>, i: int)
    requires
        0 <= i <= s.len(),
    ensures
        i <= text::skip_space(s, i) <= s.len(),
    decreases s.len() - i,
{
    if i < s.len() && text::is_space(s[i]) {
        skip_space_in_range(s, i + 1);
    }
}

proof fn drop_space_in_range(s: Seq<char>, i: int, j: int)
    requires
        0 <= i <= j <= s.len(),
    ensures
        i <= text::drop_space(s, i, j) <= j,
    decreases j,
{
    if i < j && text::is_space(s[j - 1]) {
        drop_space_in_range(s, i, j - 1);
    }
}

fn digit_value(c: char) -> (value: Option<u8>)
    ensures
        match value {
            Some(d) => hex_digit(c) == Some(d as int) && d < 16,
            None => hex_digit(c) is None,
        },
{
    if '0' <= c && c <= '9' {
        Some((c as u32 - 48) as u8)
    } else if 'a' <= c && c <= 'f' {
        Some((c as u32 - 87) as u8)
    } else if 'A' <= c && c <= 'F' {
        Some((c as u32 - 55) as u8)
    } else {
        None
    }
}

/// What came of reading one channel.
enum Channel {
    /// The slice would cut a character in two.
    Uncut,
    /// Not a hexadecimal number.
    Bad,
    /// The value.
    Value(u8),
}

fn read_channel(s: &Vec<char>, from: usize, a: usize, b: usize) -> (read: Channel)
    requires
        from <= s@.len(),
        a <= b,
    ensures
        match slices::byte_slice(s@.skip(from as int), a as int, b as int) {
            None => read is Uncut,
            Some(g) => match channel_value(g) {
                None => read is Bad,
                Some(v) => read == Channel::Value(v),
            },
        },
{
    let (i, j): (usize, usize) = match (slices::find_cut(s, from, a), slices::find_cut(s, from, b)) {
        (Some(i), Some(j)) => (i, j),
        _ => {
            return Channel::Uncut;
        },
    };
    proof {
        slices::cuts_are_ordered(s@.skip(from as int), a as int, b as int);
    }
    let ghost g = s@.skip(from as int).subrange(i as int, j as int);
    let n: usize = j - i;
    assert(from + j <= s.len());
    if n == 1 {
        assert(g[0] == s@[from + i]);
        match digit_value(s[from + i]) {
            Some(d) => Channel::Value(d * 17),
            None => Channel::Bad,
        }
    } else if n == 2 {
        assert(g[0] == s@[from + i]);
        assert(g[1] == s@[from + i + 1]);
        match (digit_value(s[from + i]), digit_value(s[from + i + 1])) {
            (Some(hi), Some(lo)) => Channel::Value(hi * 16 + lo),
            (None, Some(lo)) => if s[from + i] == '+' {
                Channel::Value(lo)
            } else {
                Channel::Bad
            },
            _ => Channel::Bad,
        }
    } else {
        Channel::Bad
    }
}

/// The outcome that a result stands for.
pub open spec fn outcome(r: Option<Result<ColorDef, HexColorError>>) -> Outcome {
    match r {
        None => None,
        Some(Ok(c)) => Some(Ok(c)),
        Some(Err(e)) => Some(Err(e@)),
    }
}

fn read_channels(s: &Vec<char>, from: usize, w: usize) -> (r: Option<
    Result<ColorDef, HexColorError>,
>)
    requires
        from <= s@.len(),
        w <= 2,
    ensures
        outcome(r) == channels(s@.skip(from as int), w as int),
{
    let red: u8 = match read_channel(s, from, 0, w) {
        Channel::Uncut => {
            return None;
        },
        Channel::Bad => {
            return Some(Err(HexColorError::BadDigit));
        },
        Channel::Value(v) => v,
    };
    let green: u8 = match read_channel(s, from, w, 2 * w) {
        Channel::Uncut => {
            return None;
        },
        Channel::Bad => {
            return Some(Err(HexColorError::BadDigit));
        },
        Channel::Value(v) => v,
    };
    let blue: u8 = match read_channel(s, from, 2 * w, 3 * w) {
        Channel::Uncut => {
            return None;
        },
        Channel::Bad => {
            return Some(Err(HexColorError::BadDigit));
        },
        Channel::Value(v) => v,
    };
    Some(Ok(ColorDef { r: red, g: green, b: blue }))
}

fn read_color(s: &Vec<char>) -> (r: Option<Result<ColorDef, HexColorError>>)
    ensures
        outcome(r) == hex_color(s@),
    decreases s@.len(),
{
    let t: Vec<char> = text::trim_chars(s);
    proof {
        trimmed_is_part(s@);
    }
    if t.len() == 0 || t[0] != '#' {
        let shown: String = text::string_of(&t, 0, t.len());
        assert(t@.subrange(0, t@.len() as int) =~= t@);
        return Some(Err(HexColorError::MissingHash(shown)));
    }
    let n: usize = slices::bytes_up_to(&t, 1, 8);
    if n == 3 {
        read_channels(&t, 1, 1)
    } else if n == 6 {
        read_channels(&t, 1, 2)
    } else if n == 4 || n == 8 {
        let keep: usize = if n == 4 {
            3
        } else {
            6
        };
        match slices::find_cut(&t, 1, keep) {
            None => None,
            Some(i) => {
                let ghost h = t@.skip(1);
                proof {
                    slices::whole_cut(h);
                    slices::cuts_are_ordered(h, keep as int, n as int);
                }
                let mut rgb: Vec<char> = Vec::new();
                rgb.push('#');
                let mut k: usize = 0;
                while k < i
                    invariant
                        k <= i,
                        1 + i <= t@.len(),
                        h == t@.skip(1),
                        rgb@ == seq!['#'] + h.subrange(0, k as int),
                    decreases i - k,
                {
                    rgb.push(t[1 + k]);
                    k = k + 1;
                    assert(rgb@ =~= seq!['#'] + h.subrange(0, k as int));
                }
                read_color(&rgb)
            },
        }
    } else {
        let shown: String = text::string_of(&t, 0, t.len());
        assert(t@.subrange(0, t@.len() as int) =~= t@);
        Some(Err(HexColorError::BadLength(shown)))
    }
}

/// Reads a color from its text, or returns `None` where a byte slice would
/// cut a character in two.
pub fn try_parse_hex_color(s: &str) -> (r: Option<Result<ColorDef, HexColorError>>)
    ensures
        outcome(r) == hex_color(s@),
{
    let chars: Vec<char> = text::chars_of(s);
    read_color(&chars)
}

/// Reads a color from its text.
pub fn parse_hex_color(s: &str) -> (r: Result<ColorDef, HexColorError>)
    requires
        hex_color(s@) is Some,
    ensures
        outcome(Some(r)) == hex_color(s@),
{
    match try_parse_hex_color(s) {
        Some(r) => r,
        None => Err(HexColorError::BadDigit),
    }
}

// ---------------------------------------------------------------------------
// What a color text means
// ---------------------------------------------------------------------------

/// A digit has its value in either case, and nothing else is one.
pub proof fn digits_have_their_value(c: char)
    ensures
        hex_digit(c) matches Some(v) ==> 0 <= v < 16,
        '0' <= c <= '9' ==> hex_digit(c) == Some(c as int - '0' as int),
        'a' <= c <= 'f' ==> hex_digit(c) == Some(10 + c as int - 'a' as int),
        'A' <= c <= 'F' ==> hex_digit(c) == Some(10 + c as int - 'A' as int),
        hex_digit(c) is Some <==> '0' <= c <= '9' || 'a' <= c <= 'f' || 'A' <= c <= 'F',
{
}

/// White space around a color makes no difference.
pub proof fn space_around_colors_is_ignored(before: Seq<char>, s: Seq<char>, behind: Seq<char>)
    requires
        s.len() > 0,
        !text::is_space(s[0]),
        !text::is_space(s.last()),
        forall|k: int| 0 <= k < before.len() ==> text::is_space(#[trigger] before[k]),
        forall|k: int| 0 <= k < behind.len() ==> text::is_space(#[trigger] behind[k]),
    ensures
        hex_color(before + s + behind) == hex_color(s),
{
    text::trimming_finds_the_text(before, s, behind);
    text::trimming_finds_the_text(Seq::empty(), s, Seq::empty());
    assert(Seq::<char>::empty() + s + Seq::<char>::empty() =~= s);
}

proof fn plain_text_is_trimmed(s: Seq<char>)
    requires
        s.len() > 0,
        !text::is_space(s[0]),
        !text::is_space(s.last()),
    ensures
        text::trimmed(s) == s,
{
    text::trimming_finds_the_text(Seq::empty(), s, Seq::empty());
    assert(Seq::<char>::empty() + s + Seq::<char>::empty() =~= s);
}

/// A color of three pairs of digits is read pair by pair, in either case.
pub proof fn six_digits_are_three_channels(
    r: (char, char),
    g: (char, char),
    b: (char, char),
)
    requires
        hex_digit(r.0) is Some && hex_digit(r.1) is Some,
        hex_digit(g.0) is Some && hex_digit(g.1) is Some,
        hex_digit(b.0) is Some && hex_digit(b.1) is Some,
    ensures
        ({
            let s = seq!['#', r.0, r.1, g.0, g.1, b.0, b.1];
            let value = |p: (char, char)| (hex_digit(p.0)->0 * 16 + hex_digit(p.1)->0) as u8;
            hex_color(s) == Some(
                Ok::<ColorDef, HexColorFault>(ColorDef { r: value(r), g: value(g), b: value(b) }),
            )
        }),
{
    let s = seq!['#', r.0, r.1, g.0, g.1, b.0, b.1];
    plain_text_is_trimmed(s);
    let h = s.skip(1);
    assert(forall|k: int| 0 <= k < 6 ==> slices::width(#[trigger] h[k]) == 1);
    slices::narrow_cuts(h);
    assert(h.subrange(0, 2) =~= seq![r.0, r.1]);
    assert(h.subrange(2, 4) =~= seq![g.0, g.1]);
    assert(h.subrange(4, 6) =~= seq![b.0, b.1]);
}

/// A color of three digits is the one with every digit doubled, and a fourth
/// digit, the alpha, makes no difference.
pub proof fn three_digits_are_doubled(r: char, g: char, b: char, alpha: char)
    requires
        hex_digit(r) is Some && hex_digit(g) is Some && hex_digit(b) is Some && hex_digit(
            alpha,
        ) is Some,
    ensures
        hex_color(seq!['#', r, g, b]) == hex_color(seq!['#', r, r, g, g, b, b]),
        hex_color(seq!['#', r, g, b, alpha]) == hex_color(seq!['#', r, g, b]),
        hex_color(seq!['#', r, g, b]) matches Some(Ok(c)) && c.r == 17 * hex_digit(r)->0 && c.g
            == 17 * hex_digit(g)->0 && c.b == 17 * hex_digit(b)->0,
{
    let s = seq!['#', r, g, b];
    plain_text_is_trimmed(s);
    let h = s.skip(1);
    assert(forall|k: int| 0 <= k < 3 ==> slices::width(#[trigger] h[k]) == 1);
    slices::narrow_cuts(h);
    assert(h.subrange(0, 1) =~= seq![r]);
    assert(h.subrange(1, 2) =~= seq![g]);
    assert(h.subrange(2, 3) =~= seq![b]);
    six_digits_are_three_channels((r, r), (g, g), (b, b));
    let t = seq!['#', r, g, b, alpha];
    plain_text_is_trimmed(t);
    let i = t.skip(1);
    assert(forall|k: int| 0 <= k < 4 ==> slices::width(#[trigger] i[k]) == 1);
    slices::narrow_cuts(i);
    assert(seq!['#'] + i.subrange(0, 3) =~= s);
}

/// What does not begin with a hash is no color, whatever else it is, and the
/// fault repeats it.
pub proof fn colors_begin_with_a_hash(s: Seq<char>)
    requires
        s.len() > 0,
        !text::is_space(s[0]),
        !text::is_space(s.last()),
        s[0] != '#',
    ensures
        hex_color(s) == Some(Err::<ColorDef, HexColorFault>(HexColorFault::MissingHash(s))),
{
    plain_text_is_trimmed(s);
}

/// A hash with another number of bytes behind it than three, four, six or eight
/// is no color, and the fault repeats it.
pub proof fn colors_have_their_length(s: Seq<char>)
    requires
        s.len() > 0,
        s[0] == '#',
        !text::is_space(s.last()),
        slices::byte_len(s.skip(1)) != 3,
        slices::byte_len(s.skip(1)) != 4,
        slices::byte_len(s.skip(1)) != 6,
        slices::byte_len(s.skip(1)) != 8,
    ensures
        hex_color(s) == Some(Err::<ColorDef, HexColorFault>(HexColorFault::BadLength(s))),
{
    plain_text_is_trimmed(s);
}

/// The message for a color without a hash, and that for one of a wrong length,
/// say what is wrong and end with the text that was given.
pub proof fn messages_repeat_the_text(s: Seq<char>)
    ensures
        "hex color must start with"@.is_prefix_of(HexColorFault::MissingHash(s).text()),
        s.is_suffix_of(HexColorFault::MissingHash(s).text()),
        "invalid hex color length"@.is_prefix_of(HexColorFault::BadLength(s).text()),
        s.is_suffix_of(HexColorFault::BadLength(s).text()),
        "invalid digit found in string"@ == HexColorFault::BadDigit.text(),
        HexColorFault::MissingHash(Seq::empty()).text().len() == 31,
        HexColorFault::BadLength(Seq::empty()).text().len() == 26,
{
    reveal_strlit("hex color must start with");
    reveal_strlit("invalid hex color length");
    reveal_strlit("hex color must start with '#': ");
    reveal_strlit("invalid hex color length: ");
    let a = HexColorFault::MissingHash(s).text();
    let b = HexColorFault::BadLength(s).text();
    assert("hex color must start with"@ =~= a.subrange(0, 25));
    assert("invalid hex color length"@ =~= b.subrange(0, 24));
    assert(s =~= a.subrange(a.len() - s.len(), a.len() as int));
    assert(s =~= b.subrange(b.len() - s.len(), b.len() as int));
}

} // verus!
