//! Paths as texts with `/` between their parts.

use vstd::prelude::*;

use crate::text::{chars_of, owned, string_of};

verus! {

/// `rel` seen from `base`: an absolute path stands for itself.
pub open spec fn joined_path(base: Seq<char>, rel: Seq<char>) -> Seq<char> {
    if rel.len() > 0 && rel[0] == '/' {
        rel
    } else if base.len() == 0 {
        rel
    } else if base.last() == '/' {
        base + rel
    } else {
        base.push('/') + rel
    }
}

/// The position behind the last `/`; 0 where there is none.
pub open spec fn after_slash(s: Seq<char>) -> int
    decreases s.len(),
{
    if s.len() == 0 {
        0
    } else if s.last() == '/' {
        s.len() as int
    } else {
        after_slash(s.drop_last())
    }
}

/// The directory that a path names something in; empty where the path has one part.
pub open spec fn parent_path(s: Seq<char>) -> Seq<char> {
    let k = after_slash(s);
    if k <= 1 {
        s.take(k)
    } else {
        s.take(k - 1)
    }
}

/// The last part of a path.
pub open spec fn last_part(s: Seq<char>) -> Seq<char> {
    s.skip(after_slash(s))
}

fn find_after_slash(v: &Vec<char>) -> (r: usize)
    ensures
        r == after_slash(v@),
        r <= v@.len(),
{
    let mut i: usize = v.len();
    assert(v@.take(i as int) =~= v@);
    while i > 0
        invariant
            i <= v@.len(),
            after_slash(v@) == after_slash(v@.take(i as int)),
        decreases i,
    {
        assert(v@.take(i as int).last() == v@[i - 1]);
        assert(v@.take(i as int).drop_last() =~= v@.take(i - 1));
        if v[i - 1] == '/' {
            return i;
        }
        i -= 1;
    }
    0
}

/// `rel` seen from `base`.
pub fn join_path(base: &str, rel: &str) -> (r: String)
    ensures
        r@ == joined_path(base@, rel@),
{
    let b = chars_of(base);
    let v = chars_of(rel);
    if v.len() > 0 && v[0] == '/' || b.len() == 0 {
        return owned(rel);
    }
    let mut out = owned(base);
    if b[b.len() - 1] != '/' {
        out.push('/');
    }
    out.append(rel);
    out
}

/// The directory that a path names something in.
pub fn parent(path: &str) -> (r: String)
    ensures
        r@ == parent_path(path@),
{
    let v = chars_of(path);
    let k: usize = find_after_slash(&v);
    if k <= 1 {
        assert(v@.take(k as int) =~= v@.subrange(0, k as int));
        string_of(&v, 0, k)
    } else {
        assert(v@.take(k - 1) =~= v@.subrange(0, k - 1));
        string_of(&v, 0, k - 1)
    }
}

/// The last part of a path.
pub fn file_name(path: &str) -> (r: String)
    ensures
        r@ == last_part(path@),
{
    let v = chars_of(path);
    let k: usize = find_after_slash(&v);
    assert(v@.skip(k as int) =~= v@.subrange(k as int, v@.len() as int));
    string_of(&v, k, v.len())
}

proof fn a_slash_free_tail(base: Seq<char>, name: Seq<char>)
    requires
        forall|i: int| 0 <= i < name.len() ==> #[trigger] name[i] != '/',
    ensures
        after_slash(base.push('/') + name) == base.len() + 1,
        base.len() == 0 ==> after_slash(name) == 0,
    decreases name.len(),
{
    let s = base.push('/') + name;
    if name.len() == 0 {
        assert(s =~= base.push('/'));
    } else {
        let init = name.drop_last();
        assert(s.drop_last() =~= base.push('/') + init);
        assert(s.last() == name[name.len() - 1]);
        assert forall|i: int| 0 <= i < init.len() implies #[trigger] init[i] != '/' by {
            assert(init[i] == name[i]);
        }
        a_slash_free_tail(base, init);
        assert(name.last() == name[name.len() - 1]);
    }
}

/// A name in a directory has that directory as its parent and itself as its last part; an absolute
/// path stays as it is wherever it is used.
pub proof fn a_name_in_a_directory(base: Seq<char>, name: Seq<char>, abs: Seq<char>)
    requires
        base.len() > 0,
        base.last() != '/',
        name.len() > 0,
        forall|i: int| 0 <= i < name.len() ==> #[trigger] name[i] != '/',
        abs.len() > 0,
        abs[0] == '/',
    ensures
        joined_path(base, name) == base + seq!['/'] + name,
        parent_path(joined_path(base, name)) == base,
        last_part(joined_path(base, name)) == name,
        joined_path(base, abs) == abs,
        joined_path(base.push('/'), name) == base + seq!['/'] + name,
        joined_path(Seq::empty(), name) == name,
{
    assert(name[0] != '/');
    a_slash_free_tail(base, name);
    let s = base.push('/') + name;
    assert(s =~= base + seq!['/'] + name);
    assert(s.take(base.len() as int) =~= base);
    assert(s.skip((base.len() + 1) as int) =~= name);
    assert(base.push('/') =~= base + seq!['/']);
}

} // verus!
