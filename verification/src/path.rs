//! File paths, held as bytes.

use vstd::prelude::*;

verus! {

/// The byte of the path separator.
pub const SEPARATOR: u8 = 47;

/// The byte of the dot.
pub const DOT: u8 = 46;

/// The byte of the tilde.
pub const TILDE: u8 = 126;

/// How much of a path stands for where it starts: the root, or a leading `.`.
pub open spec fn anchor(p: Seq<u8>) -> nat {
    if p.len() > 0 && (p[0] == SEPARATOR || (p[0] == DOT && (p.len() == 1 || p[1] == SEPARATOR))) {
        1
    } else {
        0
    }
}

/// A path without the separators and `.` components it begins with.
pub open spec fn relative(p: Seq<u8>) -> Seq<u8>
    decreases p.len(),
{
    if anchor(p) > 0 {
        relative(p.skip(1))
    } else {
        p
    }
}

/// Whether a path ends in a separator, or in a `.` that names no other place.
pub open spec fn has_idle_end(p: Seq<u8>) -> bool {
    p.len() > anchor(p) && (p.last() == SEPARATOR || (p.last() == DOT && p.len() >= 2 && p[p.len()
        - 2] == SEPARATOR))
}

/// A path without the separators and `.` components it ends with.
pub open spec fn without_idle_end(p: Seq<u8>) -> Seq<u8>
    decreases p.len(),
{
    if has_idle_end(p) {
        without_idle_end(p.drop_last())
    } else {
        p
    }
}

/// A path below a directory.
pub open spec fn joined(dir: Seq<u8>, name: Seq<u8>) -> Seq<u8> {
    if dir.len() == 0 || dir.last() == SEPARATOR {
        dir + name
    } else {
        dir.push(SEPARATOR) + name
    }
}

/// The path with a leading `~` or `~/` replaced by the home directory, where
/// there is one. What follows `~/` loses the separators and `.` components that
/// it begins and ends with.
pub open spec fn expanded(p: Seq<u8>, home: Option<Seq<u8>>) -> Seq<u8> {
    match home {
        Some(h) => if h.len() == 0 {
            p
        } else if p == seq![TILDE] {
            h
        } else if p.len() >= 2 && p[0] == TILDE && p[1] == SEPARATOR {
            joined(h, without_idle_end(relative(p.skip(2))))
        } else {
            p
        },
        None => p,
    }
}

/// The part of a path before its last separator, as it stands.
pub open spec fn up_to_last(p: Seq<u8>) -> Option<Seq<u8>>
    decreases p.len(),
{
    if p.len() == 0 {
        None
    } else if p.last() == SEPARATOR {
        Some(p)
    } else {
        up_to_last(p.drop_last())
    }
}

/// The directory that a path stands in: nothing for the root and for the empty
/// path, the empty path for a bare name.
pub open spec fn parent_of(p: Seq<u8>) -> Option<Seq<u8>> {
    let name = without_idle_end(p);
    if name.len() == 0 || name == seq![SEPARATOR] {
        None
    } else {
        match up_to_last(name) {
            None => Some(Seq::empty()),
            Some(d) => Some(without_idle_end(d)),
        }
    }
}

/// The bytes in an optional path.
pub open spec fn bytes_in(p: Option<Vec<u8>>) -> Option<Seq<u8>> {
    match p {
        Some(p) => Some(p@),
        None => None,
    }
}

/// The bytes from `from` up to `to`.
pub fn copy_bytes(p: &Vec<u8>, from: usize, to: usize) -> (r: Vec<u8>)
    requires
        from <= to <= p@.len(),
    ensures
        r@ == p@.subrange(from as int, to as int),
{
    let mut out: Vec<u8> = Vec::new();
    let mut i: usize = from;
    while i < to
        invariant
            from <= i <= to <= p@.len(),
            out@ == p@.subrange(from as int, i as int),
        decreases to - i,
    {
        out.push(p[i]);
        i = i + 1;
    }
    out
}

/// Another copy of some bytes.
pub fn copy_all(p: &Vec<u8>) -> (r: Vec<u8>)
    ensures
        r@ == p@,
{
    let r = copy_bytes(p, 0, p.len());
    assert(r@ =~= p@);
    r
}

/// A path below a directory.
pub fn join(dir: &Vec<u8>, name: &Vec<u8>) -> (r: Vec<u8>)
    ensures
        r@ == joined(dir@, name@),
{
    let mut out = copy_all(dir);
    if dir.len() > 0 && dir[dir.len() - 1] != SEPARATOR {
        out.push(SEPARATOR);
    }
    let mut tail = copy_all(name);
    out.append(&mut tail);
    assert(out@ =~= joined(dir@, name@));
    out
}

/// Whether the first bytes of a path end in a separator or an idle `.`.
fn ends_idly(p: &Vec<u8>, n: usize) -> (r: bool)
    requires
        n <= p@.len(),
    ensures
        r == has_idle_end(p@.take(n as int)),
{
    if n == 0 {
        return false;
    }
    let anchored: usize = if p[0] == SEPARATOR || (p[0] == DOT && (n == 1 || p[1] == SEPARATOR)) {
        1
    } else {
        0
    };
    n > anchored && (p[n - 1] == SEPARATOR || (p[n - 1] == DOT && n >= 2 && p[n - 2] == SEPARATOR))
}

/// A path without the separators and `.` components it ends with.
fn strip_idle_end(p: &Vec<u8>) -> (r: Vec<u8>)
    ensures
        r@ == without_idle_end(p@),
{
    let mut n: usize = p.len();
    assert(p@.take(n as int) =~= p@);
    while ends_idly(p, n)
        invariant
            n <= p@.len(),
            without_idle_end(p@) == without_idle_end(p@.take(n as int)),
        decreases n,
    {
        assert(p@.take(n as int).drop_last() =~= p@.take(n - 1));
        n = n - 1;
    }
    let r = copy_bytes(p, 0, n);
    assert(r@ =~= p@.take(n as int));
    r
}

/// A path without the separators and `.` components it begins with, from `from`
/// on.
fn strip_leading(p: &Vec<u8>, from: usize) -> (r: Vec<u8>)
    requires
        from <= p@.len(),
    ensures
        r@ == relative(p@.skip(from as int)),
{
    let mut i: usize = from;
    while i < p.len() && (p[i] == SEPARATOR || (p[i] == DOT && (i + 1 == p.len() || p[i + 1]
        == SEPARATOR)))
        invariant
            from <= i <= p@.len(),
            relative(p@.skip(from as int)) == relative(p@.skip(i as int)),
        decreases p@.len() - i,
    {
        assert(p@.skip(i as int).skip(1) =~= p@.skip(i + 1));
        i = i + 1;
    }
    let r = copy_bytes(p, i, p.len());
    assert(r@ =~= p@.skip(i as int));
    r
}

/// Replaces a leading `~` or `~/` by the home directory. A home directory that
/// is not set, or set to nothing, replaces nothing, and neither is `~user`
/// replaced.
pub fn expand_user_path(path: Vec<u8>, home: &Option<Vec<u8>>) -> (r: Vec<u8>)
    ensures
        r@ == expanded(path@, bytes_in(*home)),
{
    match home {
        None => path,
        Some(h) => {
            if h.len() == 0 {
                return path;
            }
            if path.len() == 1 && path[0] == TILDE {
                assert(path@ =~= seq![TILDE]);
                return copy_all(h);
            }
            assert(path@ != seq![TILDE]) by {
                if path@ == seq![TILDE] {
                    assert(path@.len() == 1 && path@[0] == TILDE);
                }
            }
            if path.len() >= 2 && path[0] == TILDE && path[1] == SEPARATOR {
                let rest = strip_idle_end(&strip_leading(&path, 2));
                return join(h, &rest);
            }
            path
        },
    }
}

/// The directory that a path stands in.
pub fn parent(path: &Vec<u8>) -> (r: Option<Vec<u8>>)
    ensures
        bytes_in(r) == parent_of(path@),
{
    let name = strip_idle_end(path);
    if name.len() == 0 || (name.len() == 1 && name[0] == SEPARATOR) {
        assert(name@.len() == 1 ==> name@ =~= seq![SEPARATOR]);
        return None;
    }
    assert(name@ != seq![SEPARATOR]) by {
        if name@ == seq![SEPARATOR] {
            assert(name@.len() == 1 && name@[0] == SEPARATOR);
        }
    }
    let mut n: usize = name.len();
    assert(name@.take(n as int) =~= name@);
    while n > 0 && name[n - 1] != SEPARATOR
        invariant
            n <= name@.len(),
            up_to_last(name@) == up_to_last(name@.take(n as int)),
        decreases n,
    {
        assert(name@.take(n as int).drop_last() =~= name@.take(n - 1));
        n = n - 1;
    }
    if n == 0 {
        let empty: Vec<u8> = Vec::new();
        assert(empty@ =~= Seq::<u8>::empty());
        return Some(empty);
    }
    let above = copy_bytes(&name, 0, n);
    assert(above@ =~= name@.take(n as int));
    Some(strip_idle_end(&above))
}

/// Without a home directory no path is changed.
pub proof fn law_no_home_no_change(p: Seq<u8>)
    ensures
        expanded(p, None) == p,
        expanded(p, Some(Seq::empty())) == p,
{
}

/// A path that does not begin with a tilde is never changed.
pub proof fn law_other_paths_stay(p: Seq<u8>, home: Option<Seq<u8>>)
    requires
        p.len() == 0 || p[0] != TILDE,
    ensures
        expanded(p, home) == p,
{
}

/// Expanding twice is expanding once, for a home directory that does not itself
/// begin with a tilde.
pub proof fn law_expanding_is_idempotent(p: Seq<u8>, home: Seq<u8>)
    requires
        home.len() == 0 || home[0] != TILDE,
    ensures
        expanded(expanded(p, Some(home)), Some(home)) == expanded(p, Some(home)),
{
    let once = expanded(p, Some(home));
    if home.len() > 0 && once != p {
        assert(once[0] == home[0]);
    }
}

/// A name below a directory stands behind one slash; a directory that ends in a slash,
/// or is empty, needs no other.
pub proof fn law_joining_paths(dir: Seq<u8>, name: Seq<u8>)
    ensures
        dir.len() > 0 && dir.last() != 47 ==> joined(dir, name) == dir + seq![47u8] + name,
        dir.len() > 0 && dir.last() == 47 ==> joined(dir, name) == dir + name,
        dir.len() == 0 ==> joined(dir, name) == name,
{
    assert(dir.push(47u8) + name =~= dir + seq![47u8] + name);
    assert(dir.len() == 0 ==> dir + name =~= name);
}

/// Whether a relative path begins and ends with a name: not with a slash, and not with
/// a dot that names no other place.
pub open spec fn plain(p: Seq<u8>) -> bool {
    &&& p.len() > 0
    &&& p[0] != 47
    &&& !(p[0] == 46 && (p.len() == 1 || p[1] == 47))
    &&& p.last() != 47
    &&& !(p.last() == 46 && p.len() >= 2 && p[p.len() - 2] == 47)
}

/// A tilde stands for the home directory, and what follows a tilde and a slash stands
/// below it; further slashes and dots in front make no difference.
pub proof fn law_the_tilde_is_the_home(rest: Seq<u8>, home: Seq<u8>)
    requires
        home.len() > 0,
        plain(rest),
    ensures
        expanded(seq![126u8], Some(home)) == home,
        expanded(seq![126u8, 47u8] + rest, Some(home)) == joined(home, rest),
        expanded(seq![126u8, 47u8, 47u8] + rest, Some(home)) == joined(home, rest),
        expanded(seq![126u8, 47u8, 46u8, 47u8] + rest, Some(home)) == joined(home, rest),
        expanded(seq![126u8, 47u8] + rest + seq![47u8], Some(home)) == joined(home, rest),
{
    let a = seq![126u8, 47u8] + rest;
    let b = seq![126u8, 47u8, 47u8] + rest;
    let c = seq![126u8, 47u8, 46u8, 47u8] + rest;
    let d = a + seq![47u8];
    assert(a.skip(2) =~= rest);
    assert(b.skip(2) =~= seq![47u8] + rest);
    assert(c.skip(2) =~= seq![46u8, 47u8] + rest);
    assert(d.skip(2) =~= rest + seq![47u8]);
    assert(relative(rest) == rest);
    assert((seq![47u8] + rest).skip(1) =~= rest);
    assert(relative(seq![47u8] + rest) == rest);
    assert((seq![46u8, 47u8] + rest).skip(1) =~= seq![47u8] + rest);
    assert(relative(seq![46u8, 47u8] + rest) == rest);
    let e = rest + seq![47u8];
    assert(e[0] == rest[0]);
    assert(e[1] == (if rest.len() > 1 {
        rest[1]
    } else {
        47u8
    }));
    assert(!has_idle_end(rest));
    assert(without_idle_end(rest) == rest);
    assert(e.drop_last() =~= rest);
    if rest[0] == 46 {
        assert(rest.len() > 1);
    }
    assert(relative(e) == e);
    assert(has_idle_end(e));
    assert(without_idle_end(e) == rest);
    assert(a[0] == 126 && a[1] == 47 && b[0] == 126 && b[1] == 47);
    assert(c[0] == 126 && c[1] == 47 && d[0] == 126 && d[1] == 47);
    assert(a.len() >= 2 && b.len() >= 2 && c.len() >= 2 && d.len() >= 2);
}

proof fn lemma_up_to_last(front: Seq<u8>, name: Seq<u8>)
    requires
        !name.contains(47u8),
    ensures
        up_to_last(front + name) == up_to_last(front),
    decreases name.len(),
{
    if name.len() == 0 {
        assert(front + name =~= front);
    } else {
        let p = front + name;
        assert(name.contains(name.last()));
        assert(p.last() == name.last());
        assert(p.drop_last() =~= front + name.drop_last());
        assert(!name.drop_last().contains(47u8)) by {
            if name.drop_last().contains(47u8) {
                let i = choose|i: int|
                    0 <= i < name.drop_last().len() && name.drop_last()[i] == 47u8;
                assert(name[i] == 47u8);
            }
        }
        lemma_up_to_last(front, name.drop_last());
    }
}

/// The directory above a path is what stands before the slash in front of its last
/// name; for a bare name it is the empty path, for a name below the root the root, and
/// the root and the empty path have none.
pub proof fn law_the_directory_above(dir: Seq<u8>, name: Seq<u8>)
    requires
        name.len() > 0,
        !name.contains(47u8),
        name != seq![46u8],
        dir.len() > 0,
        dir.last() != 47,
        !(dir.last() == 46 && dir.len() >= 2 && dir[dir.len() - 2] == 47),
    ensures
        parent_of(dir + seq![47u8] + name) == Some(dir),
        parent_of(seq![47u8] + name) == Some(seq![47u8]),
        parent_of(name) == Some(Seq::<u8>::empty()),
        parent_of(seq![47u8]) is None,
        parent_of(Seq::<u8>::empty()) is None,
{
    let above = dir + seq![47u8];
    let root = seq![47u8];
    assert(name.contains(name.last()));
    if name.len() >= 2 {
        assert(name.contains(name[name.len() - 2]));
    }
    assert(name.len() == 1 ==> name =~= seq![name[0]]);
    let p = above + name;
    let q = root + name;
    assert(p.last() == name.last());
    assert(q.last() == name.last());
    if name.len() >= 2 {
        assert(p[p.len() - 2] == name[name.len() - 2]);
        assert(q[q.len() - 2] == name[name.len() - 2]);
    }
    assert(!has_idle_end(p));
    assert(!has_idle_end(q));
    assert(!has_idle_end(name));
    lemma_up_to_last(above, name);
    lemma_up_to_last(root, name);
    lemma_up_to_last(Seq::empty(), name);
    assert(Seq::<u8>::empty() + name =~= name);
    assert(above.last() == 47);
    assert(above.drop_last() =~= dir);
    assert(above.len() >= 2);
    assert(has_idle_end(above));
    assert(!has_idle_end(dir));
    assert(without_idle_end(dir) == dir);
    assert(without_idle_end(above) == dir);
    assert(!has_idle_end(root));
    assert(p.len() >= 3 && q.len() >= 2);
    assert(name != seq![47u8]) by {
        assert(seq![47u8][0] == 47);
    }
    assert(up_to_last(Seq::<u8>::empty()) is None);
}

} // verus!
