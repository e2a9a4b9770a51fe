//! Character-level helpers on strings, with their specifications: equality,
//! searching, decimal rendering and path joining.

use vstd::prelude::*;
use vstd::string::*;

verus! {

/// `String::push`: appends one character.
#[verifier::external_body]
pub(crate) fn push_char(s: &mut String, c: char)
    ensures
        final(s)@ == old(s)@.push(c),
{
    s.push(c);
}

/// The characters of `s`, in order.
pub fn chars_of(s: &str) -> (res: Vec<char>)
    ensures
        res@ == s@,
{
    let n: usize = s.unicode_len();
    let mut v: Vec<char> = Vec::new();
    let mut i: usize = 0;
    while i < n
        invariant
            n == s@.len(),
            i <= n,
            v@ == s@.subrange(0, i as int),
        decreases n - i,
    {
        v.push(s.get_char(i));
        i = i + 1;
    }
    v
}

/// A fresh `String` holding the characters of `s`.
pub fn owned(s: &str) -> (res: String)
    ensures
        res@ == s@,
{
    String::from_str(s)
}

/// Whether two strings hold the same characters.
pub fn str_eq(a: &str, b: &str) -> (res: bool)
    ensures
        res == (a@ == b@),
{
    let x = chars_of(a);
    let y = chars_of(b);
    if x.len() != y.len() {
        return false;
    }
    let mut i: usize = 0;
    while i < x.len()
        invariant
            x@ == a@,
            y@ == b@,
            x.len() == y.len(),
            i <= x.len(),
            forall|j: int| 0 <= j < i ==> x@[j] == y@[j],
        decreases x.len() - i,
    {
        if x[i] != y[i] {
            return false;
        }
        i = i + 1;
    }
    assert(x@ =~= y@);
    true
}

/// Index of the first occurrence of `c` in `s`, or -1.
pub open spec fn first_index(s: Seq<char>, c: char) -> int
    decreases s.len(),
{
    if s.len() == 0 {
        -1
    } else {
        let k: int = first_index(s.drop_last(), c);
        if k >= 0 {
            k
        } else if s.last() == c {
            s.len() - 1
        } else {
            -1
        }
    }
}

/// Index of the last occurrence of `c` in `s`, or -1.
pub open spec fn last_index(s: Seq<char>, c: char) -> int
    decreases s.len(),
{
    if s.len() == 0 {
        -1
    } else if s.last() == c {
        s.len() - 1
    } else {
        last_index(s.drop_last(), c)
    }
}

/// Where `c` first occurs in `s`.
pub fn find_first(s: &str, c: char) -> (res: Option<usize>)
    ensures
        match res {
            Some(k) => k == first_index(s@, c),
            None => first_index(s@, c) == -1,
        },
{
    let v = chars_of(s);
    let mut i: usize = 0;
    while i < v.len()
        invariant
            v@ == s@,
            i <= v.len(),
            first_index(s@.subrange(0, i as int), c) == -1,
        decreases v.len() - i,
    {
        assert(s@.subrange(0, i + 1).drop_last() =~= s@.subrange(0, i as int));
        if v[i] == c {
            proof { lemma_first_index_prefix(s@, c, i + 1); }
            return Some(i);
        }
        i = i + 1;
    }
    assert(s@.subrange(0, v.len() as int) =~= s@);
    None
}

/// Once a prefix holds `c`, longer prefixes find it at the same place.
proof fn lemma_first_index_prefix(s: Seq<char>, c: char, i: int)
    requires
        0 <= i <= s.len(),
        first_index(s.subrange(0, i), c) >= 0,
    ensures
        first_index(s, c) == first_index(s.subrange(0, i), c),
    decreases s.len() - i,
{
    if i < s.len() {
        assert(s.subrange(0, i + 1).drop_last() =~= s.subrange(0, i));
        lemma_first_index_prefix(s, c, i + 1);
    } else {
        assert(s.subrange(0, i) =~= s);
    }
}

/// Where `c` last occurs in `s`.
pub fn find_last(s: &str, c: char) -> (res: Option<usize>)
    ensures
        match res {
            Some(k) => k == last_index(s@, c),
            None => last_index(s@, c) == -1,
        },
{
    let v = chars_of(s);
    let mut found: Option<usize> = None;
    let mut i: usize = 0;
    while i < v.len()
        invariant
            v@ == s@,
            i <= v.len(),
            match found {
                Some(k) => k == last_index(s@.subrange(0, i as int), c),
                None => last_index(s@.subrange(0, i as int), c) == -1,
            },
        decreases v.len() - i,
    {
        assert(s@.subrange(0, i + 1).drop_last() =~= s@.subrange(0, i as int));
        if v[i] == c {
            found = Some(i);
        }
        i = i + 1;
    }
    assert(s@.subrange(0, v.len() as int) =~= s@);
    found
}

/// The character of a decimal digit.
pub open spec fn digit(d: nat) -> char {
    (48 + d) as char
}

/// Decimal rendering of `n`, without leading zeros.
pub open spec fn decimal(n: nat) -> Seq<char>
    decreases n,
{
    if n < 10 {
        seq![digit(n)]
    } else {
        decimal(n / 10).push(digit(n % 10))
    }
}

fn digit_char(d: u32) -> (c: char)
    requires
        d < 10,
    ensures
        c == digit(d as nat),
{
    ((d as u8) + 48u8) as char
}

/// Appends the decimal rendering of `n` to `s`.
pub fn push_decimal(s: &mut String, n: u32)
    ensures
        final(s)@ == old(s)@ + decimal(n as nat),
    decreases n,
{
    if n < 10 {
        push_char(s, digit_char(n));
    } else {
        push_decimal(s, n / 10);
        push_char(s, digit_char(n % 10));
        assert(old(s)@ + decimal(n as nat) =~= old(s)@ + decimal((n / 10) as nat) + seq![digit((n % 10) as nat)]);
    }
}

/// `path` with `part` pushed onto it, as a Unix path: an absolute `part`
/// replaces the path, otherwise a separator is put between them when `path`
/// is not empty and does not already end with one.
pub open spec fn joined(path: Seq<char>, part: Seq<char>) -> Seq<char> {
    if part.len() > 0 && part[0] == '/' {
        part
    } else if path.len() > 0 && path.last() != '/' {
        path + seq!['/'] + part
    } else {
        path + part
    }
}

/// Pushes `part` onto the path `path`.
pub fn path_join(path: &str, part: &str) -> (res: String)
    ensures
        res@ == joined(path@, part@),
{
    let plen: usize = part.unicode_len();
    if plen > 0 && part.get_char(0) == '/' {
        return String::from_str(part);
    }
    let n: usize = path.unicode_len();
    let mut res = String::from_str(path);
    if n > 0 && path.get_char(n - 1) != '/' {
        push_char(&mut res, '/');
    }
    res.append(part);
    res
}

/// Where `first_index` points.
pub proof fn lemma_first_index_bounds(s: Seq<char>, c: char)
    ensures
        -1 <= first_index(s, c) < s.len(),
        first_index(s, c) >= 0 ==> s[first_index(s, c)] == c,
    decreases s.len(),
{
    if s.len() > 0 {
        lemma_first_index_bounds(s.drop_last(), c);
    }
}

/// Where `last_index` points.
pub proof fn lemma_last_index_bounds(s: Seq<char>, c: char)
    ensures
        -1 <= last_index(s, c) < s.len(),
        last_index(s, c) >= 0 ==> s[last_index(s, c)] == c,
    decreases s.len(),
{
    if s.len() > 0 {
        lemma_last_index_bounds(s.drop_last(), c);
    }
}

/// The pieces of `s` between occurrences of `sep`, as `str::split` gives
/// them: one more piece than there are separators, empty ones included.
pub open spec fn pieces(s: Seq<char>, sep: char) -> Seq<Seq<char>>
    decreases s.len(),
{
    if s.len() == 0 {
        seq![Seq::<char>::empty()]
    } else {
        let p = pieces(s.drop_last(), sep);
        if s.last() == sep {
            p.push(Seq::<char>::empty())
        } else {
            p.update(p.len() - 1, p.last().push(s.last()))
        }
    }
}

/// There is always a piece.
pub proof fn lemma_pieces_nonempty(s: Seq<char>, sep: char)
    ensures
        pieces(s, sep).len() >= 1,
    decreases s.len(),
{
    if s.len() > 0 {
        lemma_pieces_nonempty(s.drop_last(), sep);
    }
}

/// `path` with each of `parts` pushed onto it in turn.
pub open spec fn joined_all(path: Seq<char>, parts: Seq<Seq<char>>) -> Seq<char>
    decreases parts.len(),
{
    if parts.len() == 0 {
        path
    } else {
        joined(joined_all(path, parts.drop_last()), parts.last())
    }
}

/// Pushing a part that does not start with `/` keeps the path as a prefix.
pub proof fn lemma_joined_extends(path: Seq<char>, part: Seq<char>)
    requires
        !(part.len() > 0 && part[0] == '/'),
    ensures
        path.is_prefix_of(joined(path, part)),
{
    assert(joined(path, part).subrange(0, path.len() as int) =~= path);
}

/// Pushing parts none of which starts with `/` keeps the path as a prefix.
pub proof fn lemma_joined_all_extends(path: Seq<char>, parts: Seq<Seq<char>>)
    requires
        forall|i: int| 0 <= i < parts.len() ==> !(parts[i].len() > 0 && parts[i][0] == '/'),
    ensures
        path.is_prefix_of(joined_all(path, parts)),
    decreases parts.len(),
{
    if parts.len() > 0 {
        let rest = parts.drop_last();
        lemma_joined_all_extends(path, rest);
        let mid = joined_all(path, rest);
        lemma_joined_extends(mid, parts.last());
        assert(joined_all(path, parts).subrange(0, path.len() as int) =~= mid.subrange(0, path.len() as int));
    }
}

/// No piece holds the separator.
pub proof fn lemma_pieces_lack_separator(s: Seq<char>, sep: char)
    ensures
        forall|i: int, j: int|
            0 <= i < pieces(s, sep).len() && 0 <= j < pieces(s, sep)[i].len() ==> pieces(s, sep)[i][j] != sep,
    decreases s.len(),
{
    if s.len() > 0 {
        lemma_pieces_lack_separator(s.drop_last(), sep);
        lemma_pieces_nonempty(s.drop_last(), sep);
        let p = pieces(s.drop_last(), sep);
        if s.last() != sep {
            let q = p.update(p.len() - 1, p.last().push(s.last()));
            assert forall|i: int, j: int| 0 <= i < q.len() && 0 <= j < q[i].len() implies q[i][j] != sep by {
                if i == p.len() - 1 && j == p.last().len() {
                } else {
                    assert(q[i][j] == p[i][j]);
                }
            }
        }
    }
}

/// Pushing parts in two goes is pushing them all.
pub proof fn lemma_joined_all_concat(path: Seq<char>, a: Seq<Seq<char>>, b: Seq<Seq<char>>)
    ensures
        joined_all(path, a + b) == joined_all(joined_all(path, a), b),
    decreases b.len(),
{
    if b.len() == 0 {
        assert(a + b =~= a);
    } else {
        assert((a + b).drop_last() =~= a + b.drop_last());
        lemma_joined_all_concat(path, a, b.drop_last());
    }
}

/// A path component that names a directory below the path it is pushed
/// onto: not empty, not `.` and not `..`.
pub open spec fn is_component(part: Seq<char>) -> bool {
    part.len() > 0 && part != "."@ && part != ".."@
}

/// The parts that are components, in order; the others are left out.
pub open spec fn components(parts: Seq<Seq<char>>) -> Seq<Seq<char>>
    decreases parts.len(),
{
    if parts.len() == 0 {
        Seq::empty()
    } else if is_component(parts.last()) {
        components(parts.drop_last()).push(parts.last())
    } else {
        components(parts.drop_last())
    }
}

/// The components kept from parts without separators are components without
/// separators.
pub proof fn lemma_components_clean(parts: Seq<Seq<char>>, sep: char)
    requires
        forall|i: int, j: int| 0 <= i < parts.len() && 0 <= j < parts[i].len() ==> parts[i][j] != sep,
    ensures
        forall|i: int|
            0 <= i < components(parts).len() ==> is_component(#[trigger] components(parts)[i]) && forall|
                j: int,
            | 0 <= j < components(parts)[i].len() ==> components(parts)[i][j] != sep,
    decreases parts.len(),
{
    if parts.len() > 0 {
        let rest = parts.drop_last();
        assert forall|i: int, j: int| 0 <= i < rest.len() && 0 <= j < rest[i].len() implies rest[i][j]
            != sep by {
            assert(rest[i] == parts[i]);
        }
        lemma_components_clean(rest, sep);
        if is_component(parts.last()) {
            let c = components(rest).push(parts.last());
            assert forall|i: int| 0 <= i < c.len() implies is_component(#[trigger] c[i]) && forall|j: int|
                0 <= j < c[i].len() ==> c[i][j] != sep by {
                if i < components(rest).len() {
                    assert(c[i] == components(rest)[i]);
                } else {
                    assert(c[i] == parts[parts.len() - 1]);
                }
            }
        }
    }
}

/// Pushing the components of parts is pushing those of all parts but the
/// last, then the last if it is a component.
proof fn lemma_components_step(path: Seq<char>, parts: Seq<Seq<char>>)
    requires
        parts.len() > 0,
    ensures
        joined_all(path, components(parts)) == if is_component(parts.last()) {
            joined(joined_all(path, components(parts.drop_last())), parts.last())
        } else {
            joined_all(path, components(parts.drop_last()))
        },
{
    if is_component(parts.last()) {
        let c = components(parts.drop_last()).push(parts.last());
        assert(c.drop_last() =~= components(parts.drop_last()));
    }
}

/// The path with each component of `s`, split at `/`, pushed onto it.
pub fn push_components(path: String, s: &str) -> (res: String)
    ensures
        res@ == joined_all(path@, components(pieces(s@, '/'))),
{
    let chars = chars_of(s);
    let mut res = path;
    let mut cur = String::new();
    let mut i: usize = 0;
    assert(s@.subrange(0, 0) =~= Seq::<char>::empty());
    assert(pieces(Seq::<char>::empty(), '/').drop_last() =~= Seq::<Seq<char>>::empty());
    while i < chars.len()
        invariant
            chars@ == s@,
            i <= chars@.len(),
            res@ == joined_all(path@, components(pieces(s@.subrange(0, i as int), '/').drop_last())),
            cur@ == pieces(s@.subrange(0, i as int), '/').last(),
        decreases chars.len() - i,
    {
        let ghost prefix = s@.subrange(0, i as int);
        let ghost next = s@.subrange(0, i + 1);
        assert(next.drop_last() =~= prefix);
        proof {
            lemma_pieces_nonempty(prefix, '/');
        }
        let c = chars[i];
        if c == '/' {
            let ghost ps = pieces(prefix, '/');
            proof {
                lemma_components_step(path@, ps);
            }
            if cur.unicode_len() > 0 && !str_eq(cur.as_str(), ".") && !str_eq(cur.as_str(), "..") {
                res = path_join(res.as_str(), cur.as_str());
            }
            cur = String::new();
            assert(pieces(next, '/').drop_last() =~= pieces(prefix, '/'));
        } else {
            push_char(&mut cur, c);
            assert(pieces(next, '/').drop_last() =~= pieces(prefix, '/').drop_last());
        }
        i = i + 1;
    }
    assert(s@.subrange(0, i as int) =~= s@);
    proof {
        lemma_pieces_nonempty(s@, '/');
    }
    let ghost ps = pieces(s@, '/');
    proof {
        lemma_components_step(path@, ps);
    }
    if cur.unicode_len() > 0 && !str_eq(cur.as_str(), ".") && !str_eq(cur.as_str(), "..") {
        res = path_join(res.as_str(), cur.as_str());
    }
    res
}

/// Where `last_index` finds `c` in a concatenation.
pub proof fn lemma_last_index_concat(a: Seq<char>, b: Seq<char>, c: char)
    ensures
        last_index(a + b, c) == if last_index(b, c) >= 0 {
            a.len() + last_index(b, c)
        } else {
            last_index(a, c)
        },
    decreases b.len(),
{
    if b.len() == 0 {
        assert(a + b =~= a);
    } else {
        assert((a + b).drop_last() =~= a + b.drop_last());
        assert((a + b).last() == b.last());
        lemma_last_index_concat(a, b.drop_last(), c);
    }
}

} // verus!
