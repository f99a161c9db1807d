//! Paths as text: joining, the final component, the directory in front of it.

use vstd::prelude::*;

use crate::text::{chars_of, string_of_range};

verus! {

/// `name` below `base`. An absolute `name` replaces `base`.
pub open spec fn joined_path(base: Seq<char>, name: Seq<char>) -> Seq<char> {
    if name.len() > 0 && name[0] == '/' {
        name
    } else if base.len() == 0 || base.last() == '/' {
        base + name
    } else {
        base + seq!['/'] + name
    }
}

/// Joins `name` below `base`.
pub fn join(base: &str, name: &str) -> (r: String)
    ensures
        r@ == joined_path(base@, name@),
{
    let b = chars_of(base);
    let n = chars_of(name);
    if n.len() > 0 && n[0] == '/' {
        return name.to_owned();
    }
    let mut out = base.to_owned();
    if b.len() > 0 && b[b.len() - 1] != '/' {
        out.push('/');
    }
    out.append(name);
    assert(out@ =~= joined_path(base@, name@));
    out
}

/// Where the segment that ends `p` begins: behind the last slash.
pub open spec fn tail_start(p: Seq<char>) -> int
    decreases p.len(),
{
    if p.len() == 0 || p.last() == '/' {
        p.len() as int
    } else {
        tail_start(p.drop_last())
    }
}

/// The last segment of `p`.
pub open spec fn tail(p: Seq<char>) -> Seq<char> {
    p.skip(tail_start(p))
}

proof fn lemma_tail_start(p: Seq<char>)
    ensures
        0 <= tail_start(p) <= p.len(),
        p.len() > 0 && p.last() != '/' ==> tail_start(p) < p.len(),
    decreases p.len(),
{
    if p.len() > 0 && p.last() != '/' {
        lemma_tail_start(p.drop_last());
    }
}

/// `p` without slashes and `.` segments at its end.
pub open spec fn without_trailing_dots(p: Seq<char>) -> Seq<char>
    decreases p.len(),
{
    if p.len() == 0 {
        p
    } else if p.last() == '/' {
        without_trailing_dots(p.drop_last())
    } else if tail(p) == seq!['.'] {
        without_trailing_dots(p.drop_last())
    } else {
        p
    }
}

/// The final component of a path: none for the root, for an empty path, and
/// for one that ends in `..`.
pub open spec fn final_component(p: Seq<char>) -> Option<Seq<char>> {
    let q = without_trailing_dots(p);
    if q.len() == 0 || tail(q) == seq!['.', '.'] {
        None
    } else {
        Some(tail(q))
    }
}

/// `p` without slashes and `/.` at its end; the root stays.
pub open spec fn trimmed_directory(p: Seq<char>) -> Seq<char>
    decreases p.len(),
{
    if p.len() > 1 && p.last() == '/' {
        trimmed_directory(p.drop_last())
    } else if p.len() > 1 && p.last() == '.' && p[p.len() - 2] == '/' {
        trimmed_directory(p.drop_last())
    } else {
        p
    }
}

/// The directory that holds the final component of `p`; `.` where `p` names
/// none.
pub open spec fn directory_of(p: Seq<char>) -> Seq<char> {
    let q = without_trailing_dots(p);
    let d = trimmed_directory(q.take(tail_start(q)));
    if d.len() == 0 {
        seq!['.']
    } else {
        d
    }
}

/// The start of the last segment of `chars[..n]`.
fn last_segment(chars: &Vec<char>, n: usize) -> (r: usize)
    requires
        n <= chars@.len(),
    ensures
        r == tail_start(chars@.take(n as int)),
        r <= n,
{
    let mut i: usize = n;
    while i > 0 && chars[i - 1] != '/'
        invariant
            i <= n <= chars@.len(),
            tail_start(chars@.take(n as int)) == tail_start(chars@.take(i as int)),
        decreases i,
    {
        proof {
            assert(chars@.take(i as int).drop_last() =~= chars@.take(i - 1));
        }
        i -= 1;
    }
    i
}

/// How long the path is without slashes and `.` segments at its end.
fn significant_len(chars: &Vec<char>) -> (r: usize)
    ensures
        r <= chars@.len(),
        chars@.take(r as int) == without_trailing_dots(chars@),
{
    let mut n: usize = chars.len();
    proof {
        assert(chars@.take(n as int) =~= chars@);
    }
    while n > 0
        invariant
            n <= chars@.len(),
            without_trailing_dots(chars@) == without_trailing_dots(chars@.take(n as int)),
        decreases n,
    {
        let ghost p = chars@.take(n as int);
        proof {
            assert(p.drop_last() =~= chars@.take(n - 1));
        }
        if chars[n - 1] != '/' {
            let start: usize = last_segment(chars, n);
            let dot = n - start == 1 && chars[start] == '.';
            proof {
                lemma_tail_start(p);
                if dot {
                    assert(tail(p) =~= seq!['.']);
                } else if tail(p) == seq!['.'] {
                    assert(tail(p).len() == 1);
                    assert(tail(p)[0] == chars@[start as int]);
                }
            }
            if !dot {
                return n;
            }
        }
        n -= 1;
    }
    assert(chars@.take(0) =~= Seq::<char>::empty());
    0
}

/// The final component of a path.
pub fn file_name(path: &str) -> (r: Option<String>)
    ensures
        match final_component(path@) {
            Some(name) => r matches Some(s) && s@ == name,
            None => r is None,
        },
{
    let chars = chars_of(path);
    let n: usize = significant_len(&chars);
    if n == 0 {
        return None;
    }
    let start: usize = last_segment(&chars, n);
    let ghost q = chars@.take(n as int);
    proof {
        assert(chars@.subrange(start as int, n as int) =~= tail(q));
    }
    if n - start == 2 && chars[start] == '.' && chars[start + 1] == '.' {
        assert(tail(q) =~= seq!['.', '.']);
        return None;
    }
    proof {
        if tail(q) == seq!['.', '.'] {
            assert(tail(q).len() == 2);
            assert(tail(q)[0] == chars@[start as int]);
            assert(tail(q)[1] == chars@[start + 1]);
        }
    }
    Some(string_of_range(&chars, start, n))
}

/// The directory that holds the final component of a path.
pub fn directory(path: &str) -> (r: String)
    ensures
        r@ == directory_of(path@),
{
    let chars = chars_of(path);
    let n: usize = significant_len(&chars);
    let start: usize = last_segment(&chars, n);
    let mut end: usize = start;
    let ghost q = chars@.take(n as int);
    proof {
        assert(q.take(start as int) =~= chars@.take(start as int));
    }
    while end > 1 && (chars[end - 1] == '/' || (chars[end - 1] == '.' && chars[end - 2] == '/'))
        invariant
            end <= start <= chars@.len(),
            trimmed_directory(chars@.take(start as int)) == trimmed_directory(
                chars@.take(end as int),
            ),
        decreases end,
    {
        proof {
            assert(chars@.take(end as int).drop_last() =~= chars@.take(end - 1));
        }
        end -= 1;
    }
    if end == 0 {
        let mut dot = String::new();
        dot.push('.');
        assert(chars@.take(0) =~= Seq::<char>::empty());
        assert(dot@ =~= seq!['.']);
        return dot;
    }
    assert(chars@.subrange(0, end as int) =~= chars@.take(end as int));
    string_of_range(&chars, 0, end)
}

/// A name without slashes that is not a dot segment is the final component of
/// any path it was joined to.
pub proof fn lemma_joined_name(base: Seq<char>, name: Seq<char>)
    requires
        name.len() > 0,
        !name.contains('/'),
        name != seq!['.'],
        name != seq!['.', '.'],
    ensures
        final_component(joined_path(base, name)) == Some(name),
{
    assert(name[0] != '/') by {
        if name[0] == '/' {
            assert(name.contains('/'));
        }
    }
    let p = joined_path(base, name);
    let head = if base.len() == 0 || base.last() == '/' {
        base
    } else {
        base + seq!['/']
    };
    assert(p =~= head + name);
    lemma_tail_of_name(head, name);
    assert(p.skip(head.len() as int) =~= name);
    assert(tail(p) == name);
    assert(p.last() == name.last());
    assert(name.last() != '/') by {
        if name.last() == '/' {
            assert(name.contains('/'));
        }
    }
    assert(without_trailing_dots(p) == p);
}

/// The directory of a name that was joined to a directory is that directory, and a
/// bare name stands in the current one.
pub proof fn lemma_joined_directory(base: Seq<char>, name: Seq<char>)
    requires
        name.len() > 0,
        !name.contains('/'),
        name != seq!['.'],
        name != seq!['.', '.'],
    ensures
        base.len() > 0 && base.last() != '/' && trimmed_directory(base) == base ==> directory_of(
            joined_path(base, name),
        ) == base,
        directory_of(name) == seq!['.'],
        directory_of(seq!['/'] + name) == seq!['/'],
{
    assert(name[0] != '/') by {
        if name[0] == '/' {
            assert(name.contains('/'));
        }
    }
    assert(name.last() != '/') by {
        if name.last() == '/' {
            assert(name.contains('/'));
        }
    }
    let empty = Seq::<char>::empty();
    lemma_tail_of_name(empty, name);
    assert(empty + name =~= name);
    assert(name.skip(0) =~= name);
    assert(name.take(0) =~= empty);
    let root = seq!['/'];
    lemma_tail_of_name(root, name);
    let top = root + name;
    assert(top.skip(1) =~= name);
    assert(top.take(1) =~= root);
    assert(top.last() == name.last());
    if base.len() > 0 && base.last() != '/' && trimmed_directory(base) == base {
        let head = base + seq!['/'];
        let p = joined_path(base, name);
        assert(p =~= head + name);
        lemma_tail_of_name(head, name);
        assert(p.skip(head.len() as int) =~= name);
        assert(p.last() == name.last());
        assert(p.take(head.len() as int) =~= head);
        assert(head.drop_last() =~= base);
    }
}

/// Neither an empty path nor the root names anything, nor does a path that leads back up.
pub proof fn lemma_no_final_component(base: Seq<char>)
    ensures
        final_component(Seq::empty()) is None,
        final_component(seq!['/']) is None,
        final_component(seq!['.', '.']) is None,
        final_component(base + seq!['/', '.', '.']) is None,
{
    let up = seq!['.', '.'];
    let none = Seq::<char>::empty();
    let root = seq!['/'];
    assert(root.drop_last() =~= none);
    assert(root.last() == '/');
    assert(without_trailing_dots(none) == none);
    assert(without_trailing_dots(root) == none);
    assert(!up.contains('/'));
    lemma_tail_of_name(none, up);
    assert(none + up =~= up);
    assert(up.skip(0) =~= up);
    assert(tail(up) == up);
    assert(up.len() == 2 && seq!['.'].len() == 1);
    assert(without_trailing_dots(up) == up);
    let head = base + seq!['/'];
    let p = base + seq!['/', '.', '.'];
    assert(p =~= head + up);
    lemma_tail_of_name(head, up);
    assert(p.skip(head.len() as int) =~= up);
    assert(p.last() == '.');
    assert(tail(p) == up);
    assert(without_trailing_dots(p) == p);
}

proof fn lemma_tail_of_name(head: Seq<char>, name: Seq<char>)
    requires
        head.len() == 0 || head.last() == '/',
        !name.contains('/'),
    ensures
        tail_start(head + name) == head.len(),
    decreases name.len(),
{
    let p = head + name;
    if name.len() == 0 {
        assert(p =~= head);
    } else {
        let shorter = name.drop_last();
        assert(!shorter.contains('/')) by {
            if shorter.contains('/') {
                let i = choose|i: int| 0 <= i < shorter.len() && shorter[i] == '/';
                assert(name[i] == '/');
            }
        }
        assert(name.last() != '/') by {
            if name.last() == '/' {
                assert(name.contains('/'));
            }
        }
        lemma_tail_of_name(head, shorter);
        assert(p.drop_last() =~= head + shorter);
    }
}

} // verus!
