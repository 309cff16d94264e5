//! The grammar of web server access logs (nginx, apache).
//!
//! An entry in the Common Log Format reads
//!
//! ```text
//! ip ident user [time] "METHOD path HTTP/1.1" status size
//! ```
//!
//! with the protocol optional and `-` in place of an unknown size. The
//! Combined Log Format adds the quoted referer and user agent.

use vstd::prelude::*;

use crate::text;

verus! {

/// The classes of characters that the grammar speaks of.
#[derive(Clone, Copy, Debug, PartialEq, Eq, Structural)]
pub enum Class {
    /// White space.
    Space,
    /// Anything but white space.
    Word,
    /// A decimal digit.
    Digit,
    /// `A` to `Z`.
    Upper,
    /// Anything but `]`.
    InBrackets,
    /// Anything but `"`.
    InQuotes,
}

/// Whether a character belongs to a class.
pub open spec fn in_class(c: char, class: Class) -> bool {
    match class {
        Class::Space => text::is_space(c),
        Class::Word => !text::is_space(c),
        Class::Digit => text::is_decimal_digit(c),
        Class::Upper => 'A' <= c && c <= 'Z',
        Class::InBrackets => c != ']',
        Class::InQuotes => c != '"',
    }
}

fn belongs(c: char, class: Class) -> (yes: bool)
    ensures
        yes == in_class(c, class),
{
    match class {
        Class::Space => text::space(c),
        Class::Word => !text::space(c),
        Class::Digit => text::decimal_digit(c),
        Class::Upper => 'A' <= c && c <= 'Z',
        Class::InBrackets => c != ']',
        Class::InQuotes => c != '"',
    }
}

/// Whether all characters of `s` from `i` to before `j` belong to a class.
#[verifier::opaque]
pub open spec fn all_in(s: Seq<char>, i: int, j: int, class: Class) -> bool {
    forall|k: int| i <= k < j ==> in_class(#[trigger] s[k], class)
}

/// Where the longest run of characters of a class that starts at `i` ends.
pub open spec fn run_end(s: Seq<char>, i: int, class: Class) -> int
    decreases s.len() - i,
{
    if 0 <= i < s.len() && in_class(s[i], class) {
        run_end(s, i + 1, class)
    } else {
        i
    }
}

/// What [`run_end`] means: the run holds only characters of the class, and
/// what follows is not one.
pub proof fn run_end_is_longest(s: Seq<char>, i: int, class: Class)
    requires
        0 <= i <= s.len(),
    ensures
        i <= run_end(s, i, class) <= s.len(),
        all_in(s, i, run_end(s, i, class), class),
        run_end(s, i, class) < s.len() ==> !in_class(s[run_end(s, i, class)], class),
    decreases s.len() - i,
{
    reveal(all_in);
    if i < s.len() && in_class(s[i], class) {
        run_end_is_longest(s, i + 1, class);
    }
}

/// A run of a class that cannot be made longer is the one [`run_end`] finds.
pub proof fn longest_run_is_run_end(s: Seq<char>, i: int, j: int, class: Class)
    requires
        0 <= i <= j <= s.len(),
        all_in(s, i, j, class),
        j < s.len() ==> !in_class(s[j], class),
    ensures
        run_end(s, i, class) == j,
    decreases j - i,
{
    reveal(all_in);
    if i < j {
        assert(in_class(s[i], class));
        longest_run_is_run_end(s, i + 1, j, class);
    }
}

fn find_run_end(s: &Vec<char>, i: usize, class: Class) -> (j: usize)
    requires
        i <= s@.len(),
    ensures
        j == run_end(s@, i as int, class),
        i <= j <= s@.len(),
        all_in(s@, i as int, j as int, class),
        j < s@.len() ==> !in_class(s@[j as int], class),
{
    let mut j: usize = i;
    while j < s.len() && belongs(s[j], class)
        invariant
            i <= j <= s@.len(),
            run_end(s@, j as int, class) == run_end(s@, i as int, class),
        decreases s@.len() - j,
    {
        j = j + 1;
    }
    proof {
        run_end_is_longest(s@, i as int, class);
    }
    j
}

/// Where the pieces of an entry stand, as character positions. A piece that
/// is not named `_end` starts there.
#[derive(Clone, Copy, Debug, PartialEq, Eq, Structural)]
pub struct Entry {
    /// The address is `0..ip_end`.
    pub ip_end: usize,
    /// The remote identity.
    pub ident: usize,
    pub ident_end: usize,
    /// The remote user.
    pub user: usize,
    pub user_end: usize,
    /// The time, without its brackets.
    pub time: usize,
    pub time_end: usize,
    /// The request method, without the quote before it.
    pub method: usize,
    pub method_end: usize,
    /// The request path.
    pub path: usize,
    pub path_end: usize,
    /// Just behind the quote that closes the request.
    pub request_end: usize,
    /// The status is `status..status + 3`.
    pub status: usize,
    /// The size.
    pub size: usize,
    pub size_end: usize,
}

/// Whether `i..j` is a non-empty range of `s` that holds only characters of a
/// class.
pub open spec fn piece(s: Seq<char>, i: int, j: int, class: Class) -> bool {
    0 <= i < j <= s.len() && all_in(s, i, j, class)
}

/// Whether the character `c` stands at `i`.
pub open spec fn char_at(s: Seq<char>, i: int, c: char) -> bool {
    0 <= i < s.len() && s[i] == c
}

/// Whether `HTTP/d.d"` stands at `i`.
pub open spec fn protocol_at(s: Seq<char>, i: int) -> bool {
    &&& char_at(s, i, 'H')
    &&& char_at(s, i + 1, 'T')
    &&& char_at(s, i + 2, 'T')
    &&& char_at(s, i + 3, 'P')
    &&& char_at(s, i + 4, '/')
    &&& piece(s, i + 5, i + 6, Class::Digit)
    &&& char_at(s, i + 6, '.')
    &&& piece(s, i + 7, i + 8, Class::Digit)
    &&& char_at(s, i + 8, '"')
}

/// Whether the request whose path ends at `path_end` is closed just before
/// `end`: by a quote, or by the protocol version and a quote.
pub open spec fn request_closed(s: Seq<char>, path_end: int, end: int) -> bool {
    ||| char_at(s, path_end, '"') && end == path_end + 1
    ||| piece(s, path_end, end - 9, Class::Space) && protocol_at(s, end - 9)
}

/// Whether `i..j` is a size: a dash, or as many digits as there are.
pub open spec fn size_piece(s: Seq<char>, i: int, j: int) -> bool {
    ||| char_at(s, i, '-') && j == i + 1
    ||| piece(s, i, j, Class::Digit) && (j < s.len() ==> !in_class(s[j], Class::Digit))
}

/// Whether `s` begins with an entry in the Common Log Format that is cut into
/// pieces at the positions `e`.
#[verifier::opaque]
pub open spec fn is_entry(s: Seq<char>, e: Entry) -> bool {
    &&& piece(s, 0, e.ip_end as int, Class::Word)
    &&& piece(s, e.ip_end as int, e.ident as int, Class::Space)
    &&& piece(s, e.ident as int, e.ident_end as int, Class::Word)
    &&& piece(s, e.ident_end as int, e.user as int, Class::Space)
    &&& piece(s, e.user as int, e.user_end as int, Class::Word)
    &&& piece(s, e.user_end as int, e.time - 1, Class::Space)
    &&& char_at(s, e.time - 1, '[')
    &&& piece(s, e.time as int, e.time_end as int, Class::InBrackets)
    &&& char_at(s, e.time_end as int, ']')
    &&& piece(s, e.time_end + 1, e.method - 1, Class::Space)
    &&& char_at(s, e.method - 1, '"')
    &&& piece(s, e.method as int, e.method_end as int, Class::Upper)
    &&& piece(s, e.method_end as int, e.path as int, Class::Space)
    &&& piece(s, e.path as int, e.path_end as int, Class::Word)
    &&& request_closed(s, e.path_end as int, e.request_end as int)
    &&& piece(s, e.request_end as int, e.status as int, Class::Space)
    &&& piece(s, e.status as int, e.status + 3, Class::Digit)
    &&& piece(s, e.status + 3, e.size as int, Class::Space)
    &&& size_piece(s, e.size as int, e.size_end as int)
}

/// Every position of an entry but the ends of path and request is where the
/// longest run of a class ends.
proof fn entry_cuts(s: Seq<char>, e: Entry)
    requires
        is_entry(s, e),
    ensures
        e.ip_end == run_end(s, 0, Class::Word),
        e.ident == run_end(s, e.ip_end as int, Class::Space),
        e.ident_end == run_end(s, e.ident as int, Class::Word),
        e.user == run_end(s, e.ident_end as int, Class::Space),
        e.user_end == run_end(s, e.user as int, Class::Word),
        e.time == run_end(s, e.user_end as int, Class::Space) + 1,
        e.time_end == run_end(s, e.time as int, Class::InBrackets),
        e.method == run_end(s, e.time_end + 1, Class::Space) + 1,
        e.method_end == run_end(s, e.method as int, Class::Upper),
        e.path == run_end(s, e.method_end as int, Class::Space),
        e.time <= s.len(),
        e.time_end < s.len(),
        e.method <= s.len(),
{
    reveal(all_in);
    reveal(is_entry);
    longest_run_is_run_end(s, 0, e.ip_end as int, Class::Word);
    longest_run_is_run_end(s, e.ip_end as int, e.ident as int, Class::Space);
    longest_run_is_run_end(s, e.ident as int, e.ident_end as int, Class::Word);
    longest_run_is_run_end(s, e.ident_end as int, e.user as int, Class::Space);
    longest_run_is_run_end(s, e.user as int, e.user_end as int, Class::Word);
    longest_run_is_run_end(s, e.user_end as int, e.time - 1, Class::Space);
    longest_run_is_run_end(s, e.time as int, e.time_end as int, Class::InBrackets);
    longest_run_is_run_end(s, e.time_end + 1, e.method - 1, Class::Space);
    longest_run_is_run_end(s, e.method as int, e.method_end as int, Class::Upper);
    longest_run_is_run_end(s, e.method_end as int, e.path as int, Class::Space);
}

/// The remaining positions of an entry, with the two ways to close a request
/// told apart by what follows the word that holds the path.
proof fn entry_tail_cuts(s: Seq<char>, e: Entry)
    requires
        is_entry(s, e),
    ensures
        ({
            let word_end = run_end(s, e.path as int, Class::Word);
            let gap_end = run_end(s, word_end, Class::Space);
            if gap_end > word_end && protocol_at(s, gap_end) {
                e.path_end == word_end && e.request_end == gap_end + 9
            } else {
                e.path_end == word_end - 1 && char_at(s, word_end - 1, '"') && e.request_end
                    == word_end
            }
        }),
        e.status == run_end(s, e.request_end as int, Class::Space),
        e.size == run_end(s, e.status + 3, Class::Space),
        e.size_end == (if char_at(s, e.size as int, '-') {
            e.size + 1
        } else {
            run_end(s, e.size as int, Class::Digit)
        }),
        e.status + 3 <= s.len(),
{
    reveal(all_in);
    reveal(is_entry);
    reveal(text::is_decimal_digit);
    longest_run_is_run_end(s, e.request_end as int, e.status as int, Class::Space);
    assert(in_class(s[e.status as int], Class::Digit));
    assert(!text::is_space(s[e.status as int]));
    if char_at(s, e.path_end as int, '"') && e.request_end == e.path_end + 1 {
        assert(text::is_space(s[e.request_end as int]));
        longest_run_is_run_end(s, e.path as int, e.path_end + 1, Class::Word);
    } else {
        assert(text::is_space(s[e.path_end as int]));
        longest_run_is_run_end(s, e.path as int, e.path_end as int, Class::Word);
        longest_run_is_run_end(s, e.path_end as int, e.request_end - 9, Class::Space);
    }
    longest_run_is_run_end(s, e.status + 3, e.size as int, Class::Space);
    if !char_at(s, e.size as int, '-') {
        longest_run_is_run_end(s, e.size as int, e.size_end as int, Class::Digit);
    }
}

/// A line can be cut into the pieces of an entry in at most one way.
pub proof fn entry_is_unique(s: Seq<char>, a: Entry, b: Entry)
    requires
        is_entry(s, a),
        is_entry(s, b),
    ensures
        a == b,
{
    entry_cuts(s, a);
    entry_cuts(s, b);
    entry_tail_cuts(s, a);
    entry_tail_cuts(s, b);
}

fn is_status_at(s: &Vec<char>, i: usize) -> (yes: bool)
    requires
        i + 3 <= s.len(),
    ensures
        yes == piece(s@, i as int, i + 3, Class::Digit),
{
    proof {
        reveal(all_in);
    }
    belongs(s[i], Class::Digit) && belongs(s[i + 1], Class::Digit) && belongs(
        s[i + 2],
        Class::Digit,
    )
}

fn is_char_at(s: &Vec<char>, i: usize, c: char) -> (yes: bool)
    ensures
        yes == char_at(s@, i as int, c),
{
    i < s.len() && s[i] == c
}

fn is_protocol_at(s: &Vec<char>, i: usize) -> (yes: bool)
    requires
        i <= s@.len(),
    ensures
        yes == protocol_at(s@, i as int),
{
    proof {
        reveal(all_in);
    }
    s.len() - i >= 9 && s[i] == 'H' && s[i + 1] == 'T' && s[i + 2] == 'T' && s[i + 3] == 'P' && s[i
        + 4] == '/' && belongs(s[i + 5], Class::Digit) && s[i + 6] == '.' && belongs(
        s[i + 7],
        Class::Digit,
    ) && s[i + 8] == '"'
}

/// Cuts the entry at the start of `s` into its pieces, if one stands there.
pub fn find_entry(s: &Vec<char>) -> (found: Option<Entry>)
    ensures
        match found {
            Some(e) => is_entry(s@, e),
            None => forall|e: Entry| !is_entry(s@, e),
        },
{
    let ip_end: usize = find_run_end(s, 0, Class::Word);
    let ident: usize = find_run_end(s, ip_end, Class::Space);
    let ident_end: usize = find_run_end(s, ident, Class::Word);
    let user: usize = find_run_end(s, ident_end, Class::Space);
    let user_end: usize = find_run_end(s, user, Class::Word);
    let bracket: usize = find_run_end(s, user_end, Class::Space);
    proof {
        assert forall|e: Entry| #[trigger] is_entry(s@, e) implies e.time == bracket + 1 && e.time
            <= s@.len() by {
            entry_cuts(s@, e);
        }
    }
    if bracket >= s.len() {
        return None;
    }
    let time: usize = bracket + 1;
    let time_end: usize = find_run_end(s, time, Class::InBrackets);
    proof {
        assert forall|e: Entry| #[trigger] is_entry(s@, e) implies e.time_end == time_end
            && time_end < s@.len() by {
            entry_cuts(s@, e);
        }
    }
    if time_end >= s.len() {
        return None;
    }
    let quote: usize = find_run_end(s, time_end + 1, Class::Space);
    proof {
        assert forall|e: Entry| #[trigger] is_entry(s@, e) implies e.method == quote + 1 && e.method
            <= s@.len() by {
            entry_cuts(s@, e);
        }
    }
    if quote >= s.len() {
        return None;
    }
    let method: usize = quote + 1;
    let method_end: usize = find_run_end(s, method, Class::Upper);
    let path: usize = find_run_end(s, method_end, Class::Space);
    let word_end: usize = find_run_end(s, path, Class::Word);
    let gap_end: usize = find_run_end(s, word_end, Class::Space);
    let with_protocol: bool = gap_end > word_end && is_protocol_at(s, gap_end);
    let path_end: usize = if with_protocol || word_end == 0 {
        word_end
    } else {
        word_end - 1
    };
    let request_end: usize = if with_protocol {
        gap_end + 9
    } else {
        word_end
    };
    let status: usize = find_run_end(s, request_end, Class::Space);
    proof {
        assert forall|e: Entry| #[trigger] is_entry(s@, e) implies {
            &&& e.path == path
            &&& e.path_end == path_end
            &&& e.request_end == request_end
            &&& e.status == status
            &&& status + 3 <= s@.len()
        } by {
            entry_cuts(s@, e);
            entry_tail_cuts(s@, e);
        }
    }
    if s.len() - status < 3 {
        return None;
    }
    let size: usize = find_run_end(s, status + 3, Class::Space);
    let dash: bool = is_char_at(s, size, '-');
    let size_end: usize = if dash {
        size + 1
    } else {
        find_run_end(s, size, Class::Digit)
    };
    let e: Entry = Entry {
        ip_end,
        ident,
        ident_end,
        user,
        user_end,
        time,
        time_end,
        method,
        method_end,
        path,
        path_end,
        request_end,
        status,
        size,
        size_end,
    };
    proof {
        assert forall|other: Entry| #[trigger] is_entry(s@, other) implies other == e by {
            entry_cuts(s@, other);
            entry_tail_cuts(s@, other);
        }
    }
    let words: bool = ip_end > 0 && ident > ip_end && ident_end > ident && user > ident_end
        && user_end > user;
    let stamped: bool = bracket > user_end && s[bracket] == '[' && time_end > time;
    let requested: bool = quote > time_end + 1 && s[quote] == '"' && method_end > method && path
        > method_end && path_end > path && (with_protocol || s[path_end] == '"');
    let answered: bool = status > request_end && is_status_at(s, status) && size > status + 3 && (
    dash || size_end > size);
    if words && stamped && requested && answered {
        assert(all_in(s@, path as int, path_end as int, Class::Word)) by {
            reveal(all_in);
        }
        assert(is_entry(s@, e)) by {
            reveal(is_entry);
        }
        Some(e)
    } else {
        assert(!is_entry(s@, e)) by {
            reveal(is_entry);
        }
        None
    }
}

/// The entry at the start of `s`, if one stands there.
pub open spec fn entry_of(s: Seq<char>) -> Option<Entry> {
    if exists|e: Entry| is_entry(s, e) {
        Some(choose|e: Entry| is_entry(s, e))
    } else {
        None
    }
}

/// Whether `i..j` is a text in quotes.
pub open spec fn quoted(s: Seq<char>, i: int, j: int) -> bool {
    &&& i + 2 <= j
    &&& char_at(s, i, '"')
    &&& all_in(s, i + 1, j - 1, Class::InQuotes)
    &&& char_at(s, j - 1, '"')
}

/// Whether the quoted user agent `u..v` follows position `i` with a quoted
/// referer before it.
pub open spec fn agent_after_referer(s: Seq<char>, i: int, u: int, v: int) -> bool {
    exists|q: int, r: int|
        {
            &&& piece(s, i, q, Class::Space)
            &&& #[trigger] quoted(s, q, r)
            &&& piece(s, r, u, Class::Space)
            &&& quoted(s, u, v)
        }
}

/// Whether the quoted user agent `u..v` follows position `i` without a
/// referer, behind at least two blanks.
pub open spec fn agent_alone(s: Seq<char>, i: int, u: int, v: int) -> bool {
    &&& piece(s, i, u, Class::Space)
    &&& i + 2 <= u
    &&& quoted(s, u, v)
}

/// The range of the user agent, without its quotes, that follows position
/// `i`, if there is one. A referer is taken for a referer wherever it can be.
pub open spec fn agent_of(s: Seq<char>, i: int) -> Option<(int, int)> {
    if exists|u: int, v: int| agent_after_referer(s, i, u, v) {
        let (u, v) = choose|u: int, v: int| agent_after_referer(s, i, u, v);
        Some((u + 1, v - 1))
    } else if exists|u: int, v: int| agent_alone(s, i, u, v) {
        let (u, v) = choose|u: int, v: int| agent_alone(s, i, u, v);
        Some((u + 1, v - 1))
    } else {
        None
    }
}

/// A quoted text ends behind the next quote.
proof fn quoted_cuts(s: Seq<char>, i: int, j: int)
    requires
        quoted(s, i, j),
    ensures
        j == run_end(s, i + 1, Class::InQuotes) + 1,
{
    longest_run_is_run_end(s, i + 1, j - 1, Class::InQuotes);
}

/// A gap before a quoted text is the whole run of white space.
proof fn gap_cuts(s: Seq<char>, i: int, j: int)
    requires
        piece(s, i, j, Class::Space),
        char_at(s, j, '"'),
    ensures
        j == run_end(s, i, Class::Space),
{
    longest_run_is_run_end(s, i, j, Class::Space);
}

/// Where a user agent behind a referer stands.
proof fn agent_after_referer_cuts(s: Seq<char>, i: int, u: int, v: int)
    requires
        agent_after_referer(s, i, u, v),
    ensures
        ({
            let q = run_end(s, i, Class::Space);
            let r = run_end(s, q + 1, Class::InQuotes) + 1;
            &&& piece(s, i, q, Class::Space)
            &&& quoted(s, q, r)
            &&& piece(s, r, u, Class::Space)
            &&& quoted(s, u, v)
            &&& u == run_end(s, r, Class::Space)
            &&& v == run_end(s, u + 1, Class::InQuotes) + 1
        }),
{
    let (q, r) = choose|q: int, r: int|
        {
            &&& piece(s, i, q, Class::Space)
            &&& #[trigger] quoted(s, q, r)
            &&& piece(s, r, u, Class::Space)
            &&& quoted(s, u, v)
        };
    gap_cuts(s, i, q);
    quoted_cuts(s, q, r);
    gap_cuts(s, r, u);
    quoted_cuts(s, u, v);
}

/// The user agent of an entry is in one place at most, with a referer before
/// it or without.
pub proof fn agent_is_unique(s: Seq<char>, i: int, u: int, v: int, x: int, y: int)
    ensures
        agent_after_referer(s, i, u, v) && agent_after_referer(s, i, x, y) ==> u == x && v == y,
        agent_alone(s, i, u, v) && agent_alone(s, i, x, y) ==> u == x && v == y,
{
    if agent_after_referer(s, i, u, v) && agent_after_referer(s, i, x, y) {
        agent_after_referer_cuts(s, i, u, v);
        agent_after_referer_cuts(s, i, x, y);
    }
    if agent_alone(s, i, u, v) && agent_alone(s, i, x, y) {
        gap_cuts(s, i, u);
        gap_cuts(s, i, x);
        quoted_cuts(s, u, v);
        quoted_cuts(s, x, y);
    }
}

/// Finds the end of the quoted text that starts at `i`.
fn find_quoted(s: &Vec<char>, i: usize) -> (found: Option<usize>)
    requires
        i <= s@.len(),
    ensures
        match found {
            Some(j) => quoted(s@, i as int, j as int) && j <= s@.len(),
            None => forall|j: int| !quoted(s@, i as int, j),
        },
{
    if i >= s.len() || s[i] != '"' {
        return None;
    }
    let close: usize = find_run_end(s, i + 1, Class::InQuotes);
    if close < s.len() {
        assert(quoted(s@, i as int, close + 1));
        Some(close + 1)
    } else {
        proof {
            assert forall|j: int| !quoted(s@, i as int, j) by {
                if quoted(s@, i as int, j) {
                    quoted_cuts(s@, i as int, j);
                }
            }
        }
        None
    }
}

/// Finds the user agent that follows position `i`.
pub fn find_agent(s: &Vec<char>, i: usize) -> (found: Option<(usize, usize)>)
    requires
        i <= s@.len(),
    ensures
        match found {
            Some((u, v)) => agent_of(s@, i as int) == Some((u as int, v as int)) && u <= v
                <= s@.len(),
            None => agent_of(s@, i as int) is None,
        },
{
    let q: usize = find_run_end(s, i, Class::Space);
    proof {
        assert forall|u: int, v: int| #[trigger] agent_alone(s@, i as int, u, v) implies u == q by {
            gap_cuts(s@, i as int, u);
        }
        assert forall|u: int, v: int| #[trigger]
            agent_after_referer(s@, i as int, u, v) implies q > i && quoted(
            s@,
            q as int,
            run_end(s@, q + 1, Class::InQuotes) + 1,
        ) by {
            agent_after_referer_cuts(s@, i as int, u, v);
        }
    }
    if q == i {
        return None;
    }
    match find_quoted(s, q) {
        None => {
            proof {
                assert forall|u: int, v: int| !agent_alone(s@, i as int, u, v) by {
                    if agent_alone(s@, i as int, u, v) {
                        assert(quoted(s@, q as int, v));
                    }
                }
            }
            None
        },
        Some(r) => {
            proof {
                quoted_cuts(s@, q as int, r as int);
            }
            let u: usize = find_run_end(s, r, Class::Space);
            proof {
                assert forall|x: int, y: int| #[trigger]
                    agent_after_referer(s@, i as int, x, y) implies x == u && u > r && quoted(
                    s@,
                    u as int,
                    y,
                ) by {
                    agent_after_referer_cuts(s@, i as int, x, y);
                }
            }
            let behind: Option<usize> = if u > r {
                find_quoted(s, u)
            } else {
                None
            };
            match behind {
                Some(v) => {
                    proof {
                        assert(quoted(s@, q as int, r as int));
                        assert(agent_after_referer(s@, i as int, u as int, v as int));
                        assert forall|x: int, y: int| #[trigger]
                            agent_after_referer(s@, i as int, x, y) implies x == u && y == v by {
                            agent_is_unique(s@, i as int, u as int, v as int, x, y);
                        }
                    }
                    Some((u + 1, v - 1))
                },
                None => {
                    assert(forall|x: int, y: int| !agent_after_referer(s@, i as int, x, y));
                    if q - i >= 2 {
                        proof {
                            assert(agent_alone(s@, i as int, q as int, r as int));
                            assert forall|x: int, y: int| #[trigger]
                                agent_alone(s@, i as int, x, y) implies x == q && y == r by {
                                agent_is_unique(s@, i as int, q as int, r as int, x, y);
                            }
                        }
                        Some((q + 1, r - 1))
                    } else {
                        None
                    }
                },
            }
        },
    }
}

// ---------------------------------------------------------------------------
// What the grammar means
// ---------------------------------------------------------------------------

/// Whether the characters `i..j` of `s`, at least one, are all white space.
pub open spec fn only_space(s: Seq<char>, i: int, j: int) -> bool {
    0 <= i < j <= s.len() && forall|k: int| i <= k < j ==> text::is_space(#[trigger] s[k])
}

/// Whether the characters `i..j` of `s`, at least one, hold no white space.
pub open spec fn no_space(s: Seq<char>, i: int, j: int) -> bool {
    0 <= i < j <= s.len() && forall|k: int| i <= k < j ==> !text::is_space(#[trigger] s[k])
}

/// Whether the characters `i..j` of `s`, at least one, are all decimal digits.
pub open spec fn only_digits(s: Seq<char>, i: int, j: int) -> bool {
    0 <= i < j <= s.len() && forall|k: int|
        i <= k < j ==> text::is_decimal_digit(#[trigger] s[k])
}

/// An entry in plain words: three words with white space between them, a time
/// in brackets, a request in quotes of a method in capitals, a path and perhaps
/// a version of HTTP, then a status of three digits and a size of digits or a
/// dash. Where a line begins so, it is cut there, and nowhere else.
pub proof fn an_entry_in_plain_words(s: Seq<char>, e: Entry)
    ensures
        entry_of(s) == Some(e) <==> {
            &&& no_space(s, 0, e.ip_end as int)
            &&& only_space(s, e.ip_end as int, e.ident as int)
            &&& no_space(s, e.ident as int, e.ident_end as int)
            &&& only_space(s, e.ident_end as int, e.user as int)
            &&& no_space(s, e.user as int, e.user_end as int)
            &&& only_space(s, e.user_end as int, e.time - 1)
            &&& e.time - 1 < s.len() && s[e.time - 1] == '['
            &&& e.time < e.time_end < s.len() && s[e.time_end as int] == ']'
            &&& forall|k: int| e.time <= k < e.time_end ==> #[trigger] s[k] != ']'
            &&& only_space(s, e.time_end + 1, e.method - 1)
            &&& e.method - 1 < s.len() && s[e.method - 1] == '"'
            &&& e.method < e.method_end <= s.len()
            &&& forall|k: int| e.method <= k < e.method_end ==> 'A' <= #[trigger] s[k] <= 'Z'
            &&& only_space(s, e.method_end as int, e.path as int)
            &&& no_space(s, e.path as int, e.path_end as int)
            &&& e.request_end <= s.len() && s[e.request_end - 1] == '"'
            &&& e.request_end == e.path_end + 1 || {
                &&& only_space(s, e.path_end as int, e.request_end - 9)
                &&& s.subrange(e.request_end - 9, e.request_end - 4) == "HTTP/"@
                &&& only_digits(s, e.request_end - 4, e.request_end - 3)
                &&& s[e.request_end - 3] == '.'
                &&& only_digits(s, e.request_end - 2, e.request_end - 1)
            }
            &&& only_space(s, e.request_end as int, e.status as int)
            &&& only_digits(s, e.status as int, e.status + 3)
            &&& only_space(s, e.status + 3, e.size as int)
            &&& e.size < s.len()
            &&& (e.size_end == e.size + 1 && s[e.size as int] == '-') || (only_digits(
                s,
                e.size as int,
                e.size_end as int,
            ) && (e.size_end < s.len() ==> !text::is_decimal_digit(s[e.size_end as int])))
        },
{
    reveal(all_in);
    reveal(is_entry);
    reveal_strlit("HTTP/");
    if is_entry(s, e) {
        let other = choose|other: Entry| is_entry(s, other);
        entry_is_unique(s, e, other);
        if e.request_end != e.path_end + 1 {
            assert(s.subrange(e.request_end - 9, e.request_end - 4) =~= "HTTP/"@);
        }
    }
    if e.request_end <= s.len() && s.subrange(e.request_end - 9, e.request_end - 4) == "HTTP/"@
        && only_space(s, e.path_end as int, e.request_end - 9) {
        let h = s.subrange(e.request_end - 9, e.request_end - 4);
        assert(h[0] == 'H' && h[1] == 'T' && h[2] == 'T' && h[3] == 'P' && h[4] == '/');
    }
}

/// Whether `s` begins with `a`.
#[verifier::opaque]
pub open spec fn begins(s: Seq<char>, a: Seq<char>) -> bool {
    a.len() <= s.len() && forall|i: int| 0 <= i < a.len() ==> #[trigger] s[i] == a[i]
}

proof fn begins_with_run(s: Seq<char>, before: Seq<char>, run: Seq<char>, class: Class)
    requires
        begins(s, before + run),
        run.len() > 0,
        forall|k: int| 0 <= k < run.len() ==> in_class(#[trigger] run[k], class),
    ensures
        begins(s, before),
        piece(s, before.len() as int, (before.len() + run.len()) as int, class),
        s.subrange(before.len() as int, (before.len() + run.len()) as int) == run,
{
    reveal(begins);
    reveal(all_in);
    let whole = before + run;
    assert forall|i: int| 0 <= i < before.len() implies #[trigger] s[i] == before[i] by {
        assert(s[i] == whole[i]);
    }
    assert forall|k: int| before.len() <= k < before.len() + run.len() implies #[trigger] s[k]
        == run[k - before.len()] by {
        assert(s[k] == whole[k]);
    }
    assert(s.subrange(before.len() as int, (before.len() + run.len()) as int) =~= run);
    assert forall|k: int| before.len() <= k < before.len() + run.len() implies in_class(
        #[trigger] s[k],
        class,
    ) by {
        assert(in_class(run[k - before.len()], class));
    }
}

proof fn begins_with_char(s: Seq<char>, before: Seq<char>, c: char)
    requires
        begins(s, before.push(c)),
    ensures
        begins(s, before),
        char_at(s, before.len() as int, c),
        in_class(c, Class::Space) ==> piece(
            s,
            before.len() as int,
            before.len() as int + 1,
            Class::Space,
        ),
        in_class(c, Class::Digit) ==> piece(
            s,
            before.len() as int,
            before.len() as int + 1,
            Class::Digit,
        ),
{
    reveal(begins);
    reveal(all_in);
    let whole = before.push(c);
    assert(s[before.len() as int] == whole[before.len() as int]);
    assert forall|i: int| 0 <= i < before.len() implies #[trigger] s[i] == before[i] by {
        assert(s[i] == whole[i]);
    }
}

/// A request up to its path, as a server writes it.
#[verifier::opaque]
pub open spec fn written_request(
    ip: Seq<char>,
    ident: Seq<char>,
    user: Seq<char>,
    time: Seq<char>,
    method: Seq<char>,
    path: Seq<char>,
) -> Seq<char> {
    (((((ip.push(' ') + ident).push(' ') + user).push(' ').push('[') + time).push(']').push(
        ' ',
    ).push('"') + method).push(' ') + path)
}

/// The version of HTTP behind a path, as a server writes it, if it does.
pub open spec fn with_version(request: Seq<char>, version: Option<(char, char)>) -> Seq<char> {
    match version {
        None => request,
        Some((major, minor)) => request.push(' ').push('H').push('T').push('T').push('P').push(
            '/',
        ).push(major).push('.').push(minor),
    }
}

/// An entry, as a server writes it.
#[verifier::opaque]
pub open spec fn written_entry(
    request: Seq<char>,
    version: Option<(char, char)>,
    status: Seq<char>,
    size: Seq<char>,
) -> Seq<char> {
    (with_version(request, version).push('"').push(' ') + status).push(' ') + size
}

/// The pieces of an entry that a server wrote.
#[verifier::opaque]
pub open spec fn written_pieces(
    ip: Seq<char>,
    ident: Seq<char>,
    user: Seq<char>,
    time: Seq<char>,
    method: Seq<char>,
    path: Seq<char>,
    version: Option<(char, char)>,
    size: Seq<char>,
) -> Entry {
    let ident_at = ip.len() + 1;
    let user_at = ident_at + ident.len() + 1;
    let time_at = user_at + user.len() + 2;
    let method_at = time_at + time.len() + 3;
    let path_at = method_at + method.len() + 1;
    let path_end = path_at + path.len();
    let request_end = path_end + if version is Some {
        10int
    } else {
        1
    };
    Entry {
        ip_end: ip.len() as usize,
        ident: ident_at as usize,
        ident_end: (ident_at + ident.len()) as usize,
        user: user_at as usize,
        user_end: (user_at + user.len()) as usize,
        time: time_at as usize,
        time_end: (time_at + time.len()) as usize,
        method: method_at as usize,
        method_end: (method_at + method.len()) as usize,
        path: path_at as usize,
        path_end: path_end as usize,
        request_end: request_end as usize,
        status: (request_end + 1) as usize,
        size: (request_end + 5) as usize,
        size_end: (request_end + 5 + size.len()) as usize,
    }
}

/// What a server writes is read: a line that begins with a written entry is cut
/// into exactly the pieces that were written, whatever follows the size.
pub proof fn written_entries_are_found(
    ip: Seq<char>,
    ident: Seq<char>,
    user: Seq<char>,
    time: Seq<char>,
    method: Seq<char>,
    path: Seq<char>,
    version: Option<(char, char)>,
    status: Seq<char>,
    size: Seq<char>,
    rest: Seq<char>,
)
    requires
        ip.len() > 0 && ident.len() > 0 && user.len() > 0 && time.len() > 0 && method.len() > 0
            && path.len() > 0 && status.len() == 3 && size.len() > 0,
        forall|k: int| 0 <= k < ip.len() ==> !text::is_space(#[trigger] ip[k]),
        forall|k: int| 0 <= k < ident.len() ==> !text::is_space(#[trigger] ident[k]),
        forall|k: int| 0 <= k < user.len() ==> !text::is_space(#[trigger] user[k]),
        forall|k: int| 0 <= k < time.len() ==> #[trigger] time[k] != ']',
        forall|k: int| 0 <= k < method.len() ==> 'A' <= #[trigger] method[k] <= 'Z',
        forall|k: int| 0 <= k < path.len() ==> !text::is_space(#[trigger] path[k]),
        version matches Some((major, minor)) ==> '0' <= major <= '9' && '0' <= minor <= '9',
        forall|k: int| 0 <= k < 3 ==> '0' <= #[trigger] status[k] <= '9',
        size == seq!['-'] || forall|k: int| 0 <= k < size.len() ==> '0' <= #[trigger] size[k]
            <= '9',
        rest.len() > 0 ==> text::is_space(rest[0]),
        (written_entry(
            written_request(ip, ident, user, time, method, path),
            version,
            status,
            size,
        ) + rest).len() <= usize::MAX,
    ensures
        ({
            let line = written_entry(
                written_request(ip, ident, user, time, method, path),
                version,
                status,
                size,
            ) + rest;
            let e = written_pieces(ip, ident, user, time, method, path, version, size);
            &&& entry_of(line) == Some(e)
            &&& e.status + 3 < e.size < e.size_end <= line.len()
            &&& line.subrange(0, e.ip_end as int) == ip
            &&& line.subrange(e.method as int, e.method_end as int) == method
            &&& line.subrange(e.path as int, e.path_end as int) == path
            &&& line.subrange(e.status as int, e.status + 3) == status
            &&& line.subrange(e.size as int, e.size_end as int) == size
            &&& line.skip(e.size_end as int) == rest
        }),
{
    let request = written_request(ip, ident, user, time, method, path);
    let entry = written_entry(request, version, status, size);
    let line = entry + rest;
    reveal(written_request);
    reveal(written_entry);
    reveal(written_pieces);
    let e = written_pieces(ip, ident, user, time, method, path, version, size);
    assert(begins(line, entry)) by {
        reveal(begins);
    }
    assert(line.skip(entry.len() as int) =~= rest);
    assert(rest.len() > 0 ==> line[entry.len() as int] == rest[0]);
    digits_are_not_space();
    written_answers_are_cut(line, request, version, status, size);
    written_requests_are_cut(line, ip, ident, user, time, method, path);
    assert(is_entry(line, e)) by {
        reveal(is_entry);
    }
    let other = choose|other: Entry| is_entry(line, other);
    entry_is_unique(line, e, other);
}

proof fn digits_are_not_space()
    ensures
        forall|c: char| '0' <= c && c <= '9' ==> #[trigger] text::is_decimal_digit(c),
        forall|c: char| #[trigger] text::is_space(c) ==> !text::is_decimal_digit(c),
{
    reveal(text::is_decimal_digit);
}

/// Where the version of HTTP and the quote behind a written request stand.
proof fn written_versions_are_cut(line: Seq<char>, request: Seq<char>, version: Option<(char, char)>)
    requires
        begins(line, with_version(request, version).push('"')),
        version matches Some((major, minor)) ==> '0' <= major <= '9' && '0' <= minor <= '9',
    ensures
        begins(line, request),
        request_closed(
            line,
            request.len() as int,
            with_version(request, version).len() as int + 1,
        ),
{
    digits_are_not_space();
    begins_with_char(line, with_version(request, version), '"');
    if let Some((major, minor)) = version {
        let v1 = request.push(' ');
        let v2 = v1.push('H');
        let v3 = v2.push('T');
        let v4 = v3.push('T');
        let v5 = v4.push('P');
        let v6 = v5.push('/');
        let v7 = v6.push(major);
        let v8 = v7.push('.');
        begins_with_char(line, v8, minor);
        begins_with_char(line, v7, '.');
        begins_with_char(line, v6, major);
        begins_with_char(line, v5, '/');
        begins_with_char(line, v4, 'P');
        begins_with_char(line, v3, 'T');
        begins_with_char(line, v2, 'T');
        begins_with_char(line, v1, 'H');
        begins_with_char(line, request, ' ');
    }
}

/// Where the pieces behind a written request stand.
proof fn written_answers_are_cut(
    line: Seq<char>,
    request: Seq<char>,
    version: Option<(char, char)>,
    status: Seq<char>,
    size: Seq<char>,
)
    requires
        begins(line, written_entry(request, version, status, size)),
        version matches Some((major, minor)) ==> '0' <= major <= '9' && '0' <= minor <= '9',
        status.len() == 3,
        size.len() > 0,
        forall|k: int| 0 <= k < 3 ==> '0' <= #[trigger] status[k] <= '9',
        size == seq!['-'] || forall|k: int| 0 <= k < size.len() ==> '0' <= #[trigger] size[k]
            <= '9',
    ensures
        begins(line, request),
        ({
            let close = with_version(request, version).len() as int + 1;
            &&& request_closed(line, request.len() as int, close)
            &&& piece(line, close, close + 1, Class::Space)
            &&& piece(line, close + 1, close + 4, Class::Digit)
            &&& piece(line, close + 4, close + 5, Class::Space)
            &&& if size == seq!['-'] {
                char_at(line, close + 5, '-')
            } else {
                piece(line, close + 5, (close + 5 + size.len()) as int, Class::Digit)
            }
            &&& line.subrange(close + 1, close + 4) == status
            &&& line.subrange(close + 5, (close + 5 + size.len()) as int) == size
        }),
{
    reveal(written_entry);
    let a14 = with_version(request, version);
    let a15 = a14.push('"');
    let a16 = a15.push(' ');
    let a17 = a16 + status;
    let a18 = a17.push(' ');
    digits_are_not_space();
    if size == seq!['-'] {
        assert(a18 + size =~= a18.push('-'));
        begins_with_char(line, a18, '-');
        assert(line.subrange(a18.len() as int, a18.len() as int + 1) =~= size);
    } else {
        begins_with_run(line, a18, size, Class::Digit);
    }
    begins_with_char(line, a17, ' ');
    begins_with_run(line, a16, status, Class::Digit);
    begins_with_char(line, a15, ' ');
    written_versions_are_cut(line, request, version);
}

/// Where the pieces of a written request stand.
proof fn written_requests_are_cut(
    line: Seq<char>,
    ip: Seq<char>,
    ident: Seq<char>,
    user: Seq<char>,
    time: Seq<char>,
    method: Seq<char>,
    path: Seq<char>,
)
    requires
        begins(line, written_request(ip, ident, user, time, method, path)),
        ip.len() > 0 && ident.len() > 0 && user.len() > 0 && time.len() > 0 && method.len() > 0
            && path.len() > 0,
        forall|k: int| 0 <= k < ip.len() ==> !text::is_space(#[trigger] ip[k]),
        forall|k: int| 0 <= k < ident.len() ==> !text::is_space(#[trigger] ident[k]),
        forall|k: int| 0 <= k < user.len() ==> !text::is_space(#[trigger] user[k]),
        forall|k: int| 0 <= k < time.len() ==> #[trigger] time[k] != ']',
        forall|k: int| 0 <= k < method.len() ==> 'A' <= #[trigger] method[k] <= 'Z',
        forall|k: int| 0 <= k < path.len() ==> !text::is_space(#[trigger] path[k]),
    ensures
        ({
            let ident_at = ip.len() as int + 1;
            let user_at = ident_at + ident.len() + 1;
            let time_at = user_at + user.len() + 2;
            let method_at = time_at + time.len() + 3;
            let path_at = method_at + method.len() + 1;
            &&& piece(line, 0, ip.len() as int, Class::Word)
            &&& piece(line, ip.len() as int, ident_at, Class::Space)
            &&& piece(line, ident_at, ident_at + ident.len(), Class::Word)
            &&& piece(line, ident_at + ident.len(), user_at, Class::Space)
            &&& piece(line, user_at, user_at + user.len(), Class::Word)
            &&& piece(line, user_at + user.len(), time_at - 1, Class::Space)
            &&& char_at(line, time_at - 1, '[')
            &&& piece(line, time_at, time_at + time.len(), Class::InBrackets)
            &&& char_at(line, time_at + time.len(), ']')
            &&& piece(line, time_at + time.len() + 1, method_at - 1, Class::Space)
            &&& char_at(line, method_at - 1, '"')
            &&& piece(line, method_at, method_at + method.len(), Class::Upper)
            &&& piece(line, method_at + method.len(), path_at, Class::Space)
            &&& piece(line, path_at, path_at + path.len(), Class::Word)
            &&& line.subrange(0, ip.len() as int) == ip
            &&& line.subrange(method_at, method_at + method.len()) == method
            &&& line.subrange(path_at, path_at + path.len()) == path
        }),
{
    reveal(written_request);
    let a1 = ip.push(' ');
    let a2 = a1 + ident;
    let a3 = a2.push(' ');
    let a4 = a3 + user;
    let a5 = a4.push(' ');
    let a6 = a5.push('[');
    let a7 = a6 + time;
    let a8 = a7.push(']');
    let a9 = a8.push(' ');
    let a10 = a9.push('"');
    let a11 = a10 + method;
    let a12 = a11.push(' ');
    begins_with_run(line, a12, path, Class::Word);
    begins_with_char(line, a11, ' ');
    begins_with_run(line, a10, method, Class::Upper);
    begins_with_char(line, a9, '"');
    begins_with_char(line, a8, ' ');
    begins_with_char(line, a7, ']');
    begins_with_run(line, a6, time, Class::InBrackets);
    begins_with_char(line, a5, '[');
    begins_with_char(line, a4, ' ');
    begins_with_run(line, a3, user, Class::Word);
    begins_with_char(line, a2, ' ');
    begins_with_run(line, a1, ident, Class::Word);
    begins_with_char(line, ip, ' ');
    assert(Seq::<char>::empty() + ip =~= ip);
    begins_with_run(line, Seq::empty(), ip, Class::Word);
}

/// A referer and a user agent behind an entry, as a server writes them: the
/// agent is found, whatever follows it.
pub proof fn written_agents_are_found(
    entry: Seq<char>,
    referer: Seq<char>,
    agent: Seq<char>,
    rest: Seq<char>,
)
    requires
        forall|k: int| 0 <= k < referer.len() ==> #[trigger] referer[k] != '"',
        forall|k: int| 0 <= k < agent.len() ==> #[trigger] agent[k] != '"',
    ensures
        ({
            let line = (((entry.push(' ').push('"') + referer).push('"').push(' ').push('"')
                + agent).push('"')) + rest;
            let u = entry.len() + referer.len() + 5;
            &&& agent_of(line, entry.len() as int) == Some((u as int, (u + agent.len()) as int))
            &&& line.subrange(u as int, (u + agent.len()) as int) == agent
        }),
{
    let b1 = entry.push(' ');
    let b2 = b1.push('"');
    let b3 = b2 + referer;
    let b4 = b3.push('"');
    let b5 = b4.push(' ');
    let b6 = b5.push('"');
    let b7 = b6 + agent;
    let b8 = b7.push('"');
    let line = b8 + rest;
    let i = entry.len() as int;
    let q = b1.len() as int;
    let r = b4.len() as int;
    let u = b5.len() as int;
    let v = b8.len() as int;
    reveal(all_in);
    assert(line[i] == ' ' && line[q] == '"' && line[r - 1] == '"' && line[r] == ' ' && line[u]
        == '"' && line[v - 1] == '"');
    assert(all_in(line, q + 1, r - 1, Class::InQuotes)) by {
        assert forall|k: int| q + 1 <= k < r - 1 implies in_class(
            #[trigger] line[k],
            Class::InQuotes,
        ) by {
            assert(line[k] == referer[k - b2.len()]);
        }
    }
    assert(all_in(line, u + 1, v - 1, Class::InQuotes)) by {
        assert forall|k: int| u + 1 <= k < v - 1 implies in_class(
            #[trigger] line[k],
            Class::InQuotes,
        ) by {
            assert(line[k] == agent[k - b6.len()]);
        }
    }
    assert(quoted(line, q, r));
    assert(quoted(line, u, v));
    assert(agent_after_referer(line, i, u, v));
    let (x, y) = choose|x: int, y: int| agent_after_referer(line, i, x, y);
    agent_is_unique(line, i, u, v, x, y);
    assert(line.subrange(u + 1, v - 1) =~= agent);
}

/// A user agent is a quoted text behind white space; where a quoted referer
/// stands before it, the second text is the agent, and where nothing quoted
/// follows there is none.
pub proof fn agents_are_quoted(s: Seq<char>, i: int)
    requires
        0 <= i <= s.len(),
    ensures
        agent_of(s, i) matches Some((u, v)) ==> {
            &&& i + 2 <= u <= v < s.len()
            &&& s[u - 1] == '"' && s[v] == '"'
            &&& forall|k: int| u <= k < v ==> #[trigger] s[k] != '"'
            &&& text::is_space(s[i])
            &&& text::is_space(s[u - 2])
        },
        i == s.len() ==> agent_of(s, i) is None,
        i < s.len() && !text::is_space(s[i]) ==> agent_of(s, i) is None,
        (forall|k: int| i <= k < s.len() ==> #[trigger] s[k] != '"') ==> agent_of(s, i) is None,
{
    reveal(all_in);
    if exists|u: int, v: int| agent_after_referer(s, i, u, v) {
        let (u, v) = choose|u: int, v: int| agent_after_referer(s, i, u, v);
        agent_after_referer_cuts(s, i, u, v);
        let q = run_end(s, i, Class::Space);
        let r = run_end(s, q + 1, Class::InQuotes) + 1;
        assert(in_class(s[i], Class::Space));
        assert(in_class(s[u - 1], Class::Space));
        assert(s[u] == '"');
        assert forall|k: int| u + 1 <= k < v - 1 implies #[trigger] s[k] != '"' by {
            assert(in_class(s[k], Class::InQuotes));
        }
    } else if exists|u: int, v: int| agent_alone(s, i, u, v) {
        let (u, v) = choose|u: int, v: int| agent_alone(s, i, u, v);
        assert(in_class(s[i], Class::Space));
        assert(in_class(s[u - 1], Class::Space));
        assert(s[u] == '"');
        assert forall|k: int| u + 1 <= k < v - 1 implies #[trigger] s[k] != '"' by {
            assert(in_class(s[k], Class::InQuotes));
        }
    }
}

/// A user agent that stands alone behind two blanks or more, where nothing else
/// quoted follows: the agent is found all the same. Behind a single blank the
/// quoted text is no agent.
pub proof fn agents_without_a_referer_are_found(
    entry: Seq<char>,
    blanks: nat,
    agent: Seq<char>,
    rest: Seq<char>,
)
    requires
        blanks > 0,
        forall|k: int| 0 <= k < agent.len() ==> #[trigger] agent[k] != '"',
        forall|k: int| 0 <= k < rest.len() ==> #[trigger] rest[k] != '"',
    ensures
        ({
            let line = ((entry + Seq::new(blanks, |k: int| ' ')).push('"') + agent).push('"') + rest;
            let u = entry.len() + blanks + 1;
            &&& blanks >= 2 ==> agent_of(line, entry.len() as int) == Some(
                (u as int, (u + agent.len()) as int),
            )
            &&& blanks == 1 ==> agent_of(line, entry.len() as int) is None
        }),
{
    let gap = Seq::new(blanks, |k: int| ' ');
    let b1 = entry + gap;
    let b2 = b1.push('"');
    let b3 = b2 + agent;
    let b4 = b3.push('"');
    let line = b4 + rest;
    let i = entry.len() as int;
    let u = b1.len() as int;
    let v = b4.len() as int;
    reveal(all_in);
    assert(line[u] == '"' && line[v - 1] == '"');
    assert(all_in(line, i, u, Class::Space)) by {
        assert forall|k: int| i <= k < u implies in_class(#[trigger] line[k], Class::Space) by {
            assert(line[k] == gap[k - i]);
        }
    }
    assert(all_in(line, u + 1, v - 1, Class::InQuotes)) by {
        assert forall|k: int| u + 1 <= k < v - 1 implies in_class(
            #[trigger] line[k],
            Class::InQuotes,
        ) by {
            assert(line[k] == agent[k - b2.len()]);
        }
    }
    assert(piece(line, i, u, Class::Space));
    assert(quoted(line, u, v));
    assert forall|k: int| v <= k < line.len() implies #[trigger] line[k] != '"' by {
        assert(line[k] == rest[k - v]);
    }
    assert forall|x: int, y: int| !agent_after_referer(line, i, x, y) by {
        if agent_after_referer(line, i, x, y) {
            let (q, r) = choose|q: int, r: int|
                {
                    &&& piece(line, i, q, Class::Space)
                    &&& #[trigger] quoted(line, q, r)
                    &&& piece(line, r, x, Class::Space)
                    &&& quoted(line, x, y)
                };
            gap_cuts(line, i, q);
            gap_cuts(line, i, u);
            quoted_cuts(line, q, r);
            quoted_cuts(line, u, v);
            assert(q == u && r == v);
            assert(line[x] == '"');
        }
    }
    if blanks >= 2 {
        assert(agent_alone(line, i, u, v));
    }
    assert forall|x: int, y: int| agent_alone(line, i, x, y) implies x == u && y == v by {
        gap_cuts(line, i, x);
        gap_cuts(line, i, u);
        quoted_cuts(line, x, y);
        quoted_cuts(line, u, v);
    }
}

} // verus!
