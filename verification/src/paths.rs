//! POSIX paths as text: what is inside a directory, and what tries to leave it.

use crate::text::{
    from_range, has_prefix, matches_at, same, split, split_at_char, to_chars, views,
};
use vstd::prelude::*;

verus! {

/// Some part of the path between slashes is `..`.
pub open spec fn climbs(path: Seq<char>) -> bool {
    exists|i: int|
        0 <= i < split_at_char(path, '/').len() && #[trigger] split_at_char(path, '/')[i] == ".."@
}

/// The path starts at the root.
pub open spec fn is_rooted(path: Seq<char>) -> bool {
    path.len() > 0 && path[0] == '/'
}

/// Whether some part of the path is `..`.
pub fn path_has_parent_traversal(path: &str) -> (r: bool)
    ensures
        r == climbs(path@),
{
    let parts = split(path, '/');
    let ghost all = split_at_char(path@, '/');
    let mut i: usize = 0;
    while i < parts.len()
        invariant
            i <= parts@.len(),
            all == split_at_char(path@, '/'),
            views(parts@) == all,
            forall|j: int| 0 <= j < i ==> #[trigger] all[j] != ".."@,
        decreases parts@.len() - i,
    {
        assert(all[i as int] == parts@[i as int]@);
        if same(parts[i].as_str(), "..") {
            return true;
        }
        i += 1;
    }
    false
}

/// Whether the path starts at the root.
pub fn is_absolute(path: &str) -> (r: bool)
    ensures
        r == is_rooted(path@),
{
    let chars = to_chars(path);
    chars.len() > 0 && chars[0] == '/'
}

/// `s` without the slashes it ends with.
pub open spec fn without_end_slashes(s: Seq<char>) -> Seq<char>
    decreases s.len(),
{
    if s.len() > 0 && s.last() == '/' {
        without_end_slashes(s.drop_last())
    } else {
        s
    }
}

/// `text` without the slashes it ends with.
pub fn trim_end_slashes(text: &str) -> (r: String)
    ensures
        r@ == without_end_slashes(text@),
{
    let chars = to_chars(text);
    let mut end: usize = chars.len();
    assert(chars@.take(end as int) =~= chars@);
    while end > 0 && chars[end - 1] == '/'
        invariant
            end <= chars@.len(),
            chars@ == text@,
            without_end_slashes(text@) == without_end_slashes(chars@.take(end as int)),
        decreases end,
    {
        assert(chars@.take(end as int).drop_last() =~= chars@.take(end - 1));
        end -= 1;
    }
    let r = from_range(&chars, 0, end);
    assert(r@ =~= chars@.take(end as int));
    r
}

/// A canonical path is a directory or lies below it.
pub open spec fn is_under(path: Seq<char>, dir: Seq<char>) -> bool {
    path == dir || has_prefix(path, without_end_slashes(dir) + seq!['/'])
}

/// Whether a canonical path on a remote machine is a directory or lies below it.
pub fn remote_path_is_under_allowed_dir(canonical_path: &str, canonical_dir: &str) -> (r: bool)
    ensures
        r == is_under(canonical_path@, canonical_dir@),
{
    if same(canonical_path, canonical_dir) {
        return true;
    }
    let mut inside = to_chars(trim_end_slashes(canonical_dir).as_str());
    inside.push('/');
    assert(inside@ =~= without_end_slashes(canonical_dir@) + seq!['/']);
    matches_at(&to_chars(canonical_path), &inside, 0)
}

/// The parts of a path that name something: neither empty nor `.`.
pub open spec fn named_parts(parts: Seq<Seq<char>>) -> Seq<Seq<char>>
    decreases parts.len(),
{
    if parts.len() == 0 {
        Seq::empty()
    } else {
        let rest = named_parts(parts.drop_last());
        if parts.last().len() == 0 || parts.last() == "."@ {
            rest
        } else {
            rest.push(parts.last())
        }
    }
}

/// The names along a path.
pub open spec fn path_parts(path: Seq<char>) -> Seq<Seq<char>> {
    named_parts(split_at_char(path, '/'))
}

/// The names along a path.
pub fn parts_of(path: &str) -> (r: Vec<String>)
    ensures
        views(r@) == path_parts(path@),
{
    let parts = split(path, '/');
    let ghost all = views(parts@);
    let mut r: Vec<String> = Vec::new();
    let mut i: usize = 0;
    assert(views(r@) =~= named_parts(all.take(0)));
    while i < parts.len()
        invariant
            i <= parts@.len(),
            all == views(parts@),
            views(r@) == named_parts(all.take(i as int)),
        decreases parts@.len() - i,
    {
        let ghost before = views(r@);
        proof {
            assert(all.take(i as int + 1).drop_last() =~= all.take(i as int));
            assert(all.take(i as int + 1).last() == parts@[i as int]@);
        }
        let part = parts[i].as_str();
        if !(part.is_empty() || same(part, ".")) {
            r.push(part.to_owned());
            assert(views(r@) =~= before.push(part@));
        }
        i += 1;
    }
    assert(all.take(all.len() as int) =~= all);
    r
}

/// The path goes along the directory: it starts where the directory starts, and passes through
/// the same names.
pub open spec fn leads_through(path: Seq<char>, dir: Seq<char>) -> bool {
    &&& is_rooted(path) == is_rooted(dir)
    &&& path_parts(dir).len() <= path_parts(path).len()
    &&& path_parts(path).take(path_parts(dir).len() as int) == path_parts(dir)
}

/// Whether a canonical local path is a directory or lies below it.
pub fn path_is_under_allowed_dir(dir: &str, canonical_path: &str) -> (r: bool)
    ensures
        r == leads_through(canonical_path@, dir@),
{
    if is_absolute(canonical_path) != is_absolute(dir) {
        return false;
    }
    let inside = parts_of(canonical_path);
    let outer = parts_of(dir);
    let ghost path = path_parts(canonical_path@);
    let ghost base = path_parts(dir@);
    if outer.len() > inside.len() {
        assert(base.len() > path.len());
        return false;
    }
    let mut i: usize = 0;
    while i < outer.len()
        invariant
            i <= outer@.len() <= inside@.len(),
            path == path_parts(canonical_path@),
            base == path_parts(dir@),
            views(inside@) == path,
            views(outer@) == base,
            forall|j: int| 0 <= j < i ==> #[trigger] path[j] == base[j],
        decreases outer@.len() - i,
    {
        assert(path[i as int] == inside@[i as int]@);
        assert(base[i as int] == outer@[i as int]@);
        if !same(inside[i].as_str(), outer[i].as_str()) {
            assert(path.take(base.len() as int)[i as int] != base[i as int]);
            return false;
        }
        i += 1;
    }
    assert(path.take(base.len() as int) =~= base);
    true
}

} // verus!
