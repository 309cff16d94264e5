//! File system paths as text, with `/` between their components.

use vstd::prelude::*;
use vstd::string::StringExecFns;

use crate::text;

verus! {

/// `name` inside the directory `dir`; an absolute `name` stands for itself.
pub open spec fn joined(dir: Seq<char>, name: Seq<char>) -> Seq<char> {
    if name.len() > 0 && name[0] == '/' {
        name
    } else if dir.len() == 0 || dir.last() == '/' {
        dir + name
    } else {
        dir + "/"@ + name
    }
}

/// `name` inside the directory `dir`; an absolute `name` stands for itself.
pub fn join(dir: &str, name: &str) -> (path: String)
    ensures
        path@ == joined(dir@, name@),
{
    let n: usize = name.unicode_len();
    if n > 0 && name.get_char(0) == '/' {
        return name.to_owned();
    }
    let mut out: String = dir.to_owned();
    let d: usize = dir.unicode_len();
    if !(d == 0 || dir.get_char(d - 1) == '/') {
        out.append("/");
    }
    out.append(name);
    out
}

/// Whether `s` ends with `suffix`.
pub fn ends_with(s: &str, suffix: &str) -> (yes: bool)
    ensures
        yes == text::found_at(s@, suffix@, s@.len() - suffix@.len()),
{
    let hay: Vec<char> = text::chars_of(s);
    let tail: Vec<char> = text::chars_of(suffix);
    if hay.len() < tail.len() {
        return false;
    }
    text::is_at(&hay, &tail, hay.len() - tail.len())
}

/// The position of the first `/`, or the length where there is none.
pub open spec fn component_end(s: Seq<char>) -> int
    decreases s.len(),
{
    if s.len() == 0 || s[0] == '/' {
        0
    } else {
        1 + component_end(s.skip(1))
    }
}

/// The components of a path: empty ones do not count, nor does `.` but at the
/// start of a relative path.
pub open spec fn components(s: Seq<char>, at_start: bool) -> Seq<Seq<char>>
    decreases s.len(),
{
    let n = component_end(s);
    if s.len() == 0 || n < 0 || n > s.len() {
        Seq::empty()
    } else {
        let piece = s.take(n);
        let rest = components(
            if n < s.len() {
                s.skip(n + 1)
            } else {
                Seq::empty()
            },
            false,
        );
        if n == 0 || (piece == "."@ && !at_start) {
            rest
        } else {
            seq![piece] + rest
        }
    }
}

/// Whether a path is absolute.
pub open spec fn rooted(s: Seq<char>) -> bool {
    s.len() > 0 && s[0] == '/'
}

/// Whether two paths have the same components.
pub open spec fn same_components(a: Seq<char>, b: Seq<char>) -> bool {
    rooted(a) == rooted(b) && components(a, !rooted(a)) == components(b, !rooted(b))
}

proof fn component_end_in_range(s: Seq<char>)
    ensures
        0 <= component_end(s) <= s.len(),
        component_end(s) < s.len() ==> s[component_end(s)] == '/',
        forall|k: int| 0 <= k < component_end(s) ==> s[k] != '/',
    decreases s.len(),
{
    if s.len() > 0 && s[0] != '/' {
        component_end_in_range(s.skip(1));
        assert forall|k: int| 0 <= k < component_end(s) implies s[k] != '/' by {
            if k > 0 {
                assert(s.skip(1)[k - 1] == s[k]);
            }
        }
    }
}

proof fn component_end_is(s: Seq<char>, n: int)
    requires
        0 <= n <= s.len(),
        n < s.len() ==> s[n] == '/',
        forall|k: int| 0 <= k < n ==> s[k] != '/',
    ensures
        component_end(s) == n,
{
    component_end_in_range(s);
    let m = component_end(s);
    if m < n {
        assert(s[m] != '/');
    }
}

fn split(s: &Vec<char>, at_start: bool) -> (out: Vec<String>)
    ensures
        text::texts(out@) == components(s@, at_start),
{
    let mut out: Vec<String> = Vec::new();
    let mut i: usize = 0;
    let mut first: bool = at_start;
    proof {
        reveal_strlit(".");
        assert(s@.skip(0) =~= s@);
        assert(text::texts(out@) =~= Seq::empty());
        assert(text::texts(out@) + components(s@, at_start) =~= components(s@, at_start));
    }
    while i < s.len()
        invariant
            i <= s@.len(),
            text::texts(out@) + components(s@.skip(i as int), first) == components(s@, at_start),
            "."@ == seq!['.'],
        decreases s@.len() - i,
    {
        let ghost tail = s@.skip(i as int);
        let mut j: usize = i;
        while j < s.len() && s[j] != '/'
            invariant
                i <= j <= s@.len(),
                forall|k: int| i <= k < j ==> s@[k] != '/',
            decreases s@.len() - j,
        {
            j = j + 1;
        }
        proof {
            component_end_is(tail, j - i);
            assert(tail.take(j - i) =~= s@.subrange(i as int, j as int));
            if j < s@.len() {
                assert(tail.skip(j - i + 1) =~= s@.skip(j + 1));
            }
        }
        let dot: bool = j - i == 1 && s[i] == '.';
        assert(dot == (tail.take(j - i) == "."@)) by {
            if j - i == 1 && s@[i as int] == '.' {
                assert(tail.take(j - i) =~= seq!['.']);
            }
        }
        let ghost before = out@;
        if j > i && !(dot && !first) {
            let piece: String = text::string_of(s, i, j);
            proof {
                assert(text::texts(before.push(piece)) =~= text::texts(before).push(piece@));
            }
            out.push(piece);
        }
        let next: usize = if j < s.len() {
            j + 1
        } else {
            j
        };
        proof {
            let rest = components(s@.skip(next as int), false);
            if j >= s@.len() {
                assert(s@.skip(next as int) =~= Seq::empty());
            }
            if j > i && !(dot && !first) {
                assert(text::texts(before) + (seq![tail.take(j - i)] + rest) =~= text::texts(out@) + rest);
            }
        }
        i = next;
        first = false;
    }
    assert(s@.skip(i as int) =~= Seq::empty());
    assert(text::texts(out@) + Seq::<Seq<char>>::empty() =~= text::texts(out@));
    out
}

/// Whether two paths have the same components.
pub fn same_path(a: &str, b: &str) -> (same: bool)
    ensures
        same == same_components(a@, b@),
{
    let x: Vec<char> = text::chars_of(a);
    let y: Vec<char> = text::chars_of(b);
    let x_root: bool = x.len() > 0 && x[0] == '/';
    let y_root: bool = y.len() > 0 && y[0] == '/';
    if x_root != y_root {
        return false;
    }
    let p: Vec<String> = split(&x, !x_root);
    let q: Vec<String> = split(&y, !y_root);
    assert(text::texts(p@).len() == p@.len());
    assert(text::texts(q@).len() == q@.len());
    if p.len() != q.len() {
        return false;
    }
    let mut i: usize = 0;
    while i < p.len()
        invariant
            i <= p@.len(),
            p@.len() == q@.len(),
            forall|k: int| 0 <= k < i ==> text::texts(p@)[k] == text::texts(q@)[k],
            text::texts(p@) == components(a@, !rooted(a@)),
            text::texts(q@) == components(b@, !rooted(b@)),
        decreases p@.len() - i,
    {
        assert(text::texts(p@)[i as int] == p@[i as int]@);
        assert(text::texts(q@)[i as int] == q@[i as int]@);
        if !text::same_text(p[i].as_str(), q[i].as_str()) {
            return false;
        }
        i = i + 1;
    }
    assert(text::texts(p@) =~= text::texts(q@));
    true
}

/// A name is put behind its directory with one slash between them; an absolute
/// one stands for itself.
pub proof fn names_are_put_behind_their_directory(dir: Seq<char>, name: Seq<char>)
    ensures
        name.len() > 0 && name[0] == '/' ==> joined(dir, name) == name,
        !(name.len() > 0 && name[0] == '/') && dir.len() > 0 && dir.last() != '/' ==> joined(
            dir,
            name,
        ) == dir + seq!['/'] + name,
        !(name.len() > 0 && name[0] == '/') && dir.len() > 0 && dir.last() == '/' ==> joined(
            dir,
            name,
        ) == dir + name,
        !(name.len() > 0 && name[0] == '/') ==> joined(Seq::empty(), name) == name,
{
    reveal_strlit("/");
    assert("/"@ =~= seq!['/']);
    assert(Seq::<char>::empty() + name =~= name);
}

/// The components of a path are what stands between its slashes: a piece with
/// something in it is one, more slashes make no difference, and neither does a
/// single dot, but at the very start.
pub proof fn components_stand_between_slashes(piece: Seq<char>, rest: Seq<char>, at_start: bool)
    requires
        piece.len() > 0,
        forall|k: int| 0 <= k < piece.len() ==> #[trigger] piece[k] != '/',
    ensures
        components(Seq::empty(), at_start).len() == 0,
        components(seq!['/'] + rest, at_start) == components(rest, false),
        components(seq!['.', '/'] + rest, false) == components(rest, false),
        piece != seq!['.'] || at_start ==> {
            &&& components(piece, at_start) == seq![piece]
            &&& components(piece + seq!['/'] + rest, at_start) == seq![piece] + components(
                rest,
                false,
            )
        },
{
    reveal_strlit(".");
    assert("."@ =~= seq!['.']);
    let slash = seq!['/'] + rest;
    component_end_is(slash, 0);
    assert(slash.skip(1) =~= rest);
    let dot = seq!['.', '/'] + rest;
    assert(dot[0] == '.' && dot[1] == '/');
    component_end_is(dot, 1);
    assert(dot.take(1) =~= seq!['.']);
    assert(dot.skip(2) =~= rest);
    component_end_is(piece, piece.len() as int);
    assert(piece.take(piece.len() as int) =~= piece);
    assert(components(Seq::empty(), false).len() == 0);
    let whole = piece + seq!['/'] + rest;
    assert forall|k: int| 0 <= k < piece.len() implies whole[k] != '/' by {
        assert(whole[k] == piece[k]);
    }
    assert(whole[piece.len() as int] == '/');
    component_end_is(whole, piece.len() as int);
    assert(whole.take(piece.len() as int) =~= piece);
    assert(whole.skip(piece.len() as int + 1) =~= rest);
    if piece != seq!['.'] || at_start {
        assert(components(piece, at_start) =~= seq![piece]);
    }
}

/// Paths are the same if both are absolute or neither is, and their components
/// are the same; so a path is the same as itself, and sameness goes both ways.
pub proof fn sameness_of_paths(a: Seq<char>, b: Seq<char>)
    ensures
        same_components(a, a),
        same_components(a, b) == same_components(b, a),
        same_components(a, b) ==> (a.len() > 0 && a[0] == '/' <==> b.len() > 0 && b[0] == '/'),
        same_components(a, b) ==> components(a, !(a.len() > 0 && a[0] == '/')) == components(
            b,
            !(b.len() > 0 && b[0] == '/'),
        ),
{
}

} // verus!
