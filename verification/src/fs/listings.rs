//! What directories read as.

use vstd::prelude::*;

use crate::assoc::{at, distinct, known, lookup, position, without};
use crate::assoc::{lemma_at, lemma_prepend, lemma_without};
use crate::cache::meta::{law_get_changes_no_value, law_put_keeps_others, law_put_then_get, stored};
use crate::fs::laws::law_listing_continues;
use crate::fs::model::{dot, dotdot, entries_from, listed_names, FsState, SpecStep};
use crate::fs::protocol::{Action, Entries, Event, FetchDirPhase, Listing, Names, Pending, Reply};
use crate::fs::protocol::{Step, Task, Text};
use crate::inode::lemma_with_wf;
use crate::path::{child_of, law_children_differ, parent_of};
use crate::shared::{lemma_stored_countable, lemma_stored_distinct, MAX_LISTING};
use crate::stat::{kind_of, FileType, StatData};

verus! {

/// The kind that an entry of a listing has when these are its attributes: directories and links
/// show as such, and all else as regular files.
pub open spec fn shown_kind(cached: Option<Option<StatData>>) -> FileType {
    match cached {
        Some(Some(st)) if kind_of(st.perm) == FileType::Directory => FileType::Directory,
        Some(Some(st)) if kind_of(st.perm) == FileType::Symlink => FileType::Symlink,
        _ => FileType::RegularFile,
    }
}

/// `e` is an entry for `name` in the directory `path`: its inode has the path of that child in
/// `t`, and its kind is that of the attributes that `s` has cached of that child.
pub open spec fn lists_child(
    s: FsState,
    t: FsState,
    path: Text,
    name: Text,
    e: (u64, FileType, Text),
) -> bool {
    let child = child_of(path, name);
    &&& e.2 == name
    &&& t.path(e.0) == Some(child)
    &&& t.inodes.ino(child) == e.0
    &&& e.1 == shown_kind(s.attr(child))
}

/// `t` caches what `s` caches, and every inode that has a path in `s` has it in `t`.
pub open spec fn keeps_all(s: FsState, t: FsState) -> bool {
    &&& forall|x: Text| #[trigger] t.attr(x) == s.attr(x)
    &&& forall|x: Text| #[trigger] t.listing(x) == s.listing(x)
    &&& forall|i: u64| (#[trigger] t.path(i)) == s.path(i) || s.path(i) is None
    &&& forall|x: Text|
        #![trigger t.inodes.inos.contains_key(x)]
        s.inodes.inos.contains_key(x) ==> t.inodes.inos.contains_key(x) && t.inodes.inos[x]
            == s.inodes.inos[x]
    &&& t.files == s.files
}

proof fn lemma_used_distinct(s: FsState, path: Text)
    requires
        distinct(s.attrs),
    ensures
        distinct(s.attr_used(path).attrs),
{
    lemma_without(s.attrs, path);
    if known(s.attrs, path) {
        lemma_prepend(without(s.attrs, path), path, lookup(s.attrs, path)->0);
    }
}

proof fn lemma_children_listed(s: FsState, path: Text, names: Names)
    requires
        s.inodes.wf(),
        distinct(s.attrs),
        s.inodes.next + names.len() <= u64::MAX,
    ensures
        ({
            let (t, all) = s.children(path, names);
            &&& t.inodes.wf()
            &&& t.inodes.next <= s.inodes.next + names.len()
            &&& distinct(t.attrs)
            &&& t == (FsState { inodes: t.inodes, attrs: t.attrs, ..s })
            &&& keeps_all(s, t)
            &&& all.len() == names.len()
            &&& forall|i: int|
                0 <= i < names.len() ==> lists_child(s, t, path, names[i], #[trigger] all[i])
            &&& forall|i: int|
                0 <= i < names.len() ==> t.inodes.inos.contains_key(
                    child_of(path, #[trigger] names[i]),
                )
        }),
    decreases names.len(),
{
    if names.len() > 0 {
        let front = names.drop_last();
        let name = names.last();
        let child = child_of(path, name);
        lemma_children_listed(s, path, front);
        let (u, before) = s.children(path, front);
        let (t, all) = s.children(path, names);
        lemma_with_wf(u.inodes, child);
        let v = u.with_ino(child);
        lemma_used_distinct(v, child);
        assert forall|x: Text| #[trigger] t.attr(x) == s.attr(x) by {
            law_get_changes_no_value(v.attrs, child, x);
            assert(u.attr(x) == s.attr(x));
        }
        assert forall|i: u64| (#[trigger] t.path(i)) == s.path(i) || s.path(i) is None by {
            assert(u.path(i) == s.path(i) || s.path(i) is None);
            if s.path(i) is Some {
                assert(u.inodes.paths.contains_key(i));
            }
        }
        assert forall|x: Text|
            #![trigger t.inodes.inos.contains_key(x)]
            s.inodes.inos.contains_key(x) implies t.inodes.inos.contains_key(x)
            && t.inodes.inos[x] == s.inodes.inos[x] by {
            assert(u.inodes.inos.contains_key(x));
        }
        assert forall|i: int| 0 <= i < names.len() implies t.inodes.inos.contains_key(
            child_of(path, #[trigger] names[i]),
        ) by {
            if i < front.len() {
                assert(front[i] == names[i]);
                assert(u.inodes.inos.contains_key(child_of(path, front[i])));
            }
        }
        assert forall|i: int| 0 <= i < names.len() implies lists_child(
            s,
            t,
            path,
            names[i],
            #[trigger] all[i],
        ) by {
            if i < front.len() {
                assert(front[i] == names[i]);
                assert(all[i] == before[i]);
                assert(lists_child(s, u, path, front[i], before[i]));
                let c = child_of(path, names[i]);
                assert(u.inodes.inos.contains_key(c));
                assert(u.inodes.paths.contains_key(before[i].0));
            } else {
                assert(u.attr(child) == s.attr(child));
                assert(t.inodes.inos.contains_key(child));
            }
        }
    }
}

/// A directory whose listing is cached reads as that listing, after itself and its parent: each
/// name, in order, under the inode that has the path of that child, and with the kind that
/// the cached attributes of that child tell. Each entry says where the next one starts, and a
/// read from an offset on gives the entries from there on. Reading drops nothing that is cached,
/// changes no value and takes no path from an inode.
pub proof fn law_listing_shows_children(s: FsState, ino: u64, path: Text, names: Names, offset: u64)
    requires
        s.wf(),
        s.roomy(),
        s.path(ino) == Some(path),
        s.listing(path) == Some(names),
    ensures
        ({
            let (t, step) = s.readdir(ino, 0);
            &&& keeps_all(s, t)
            &&& t.fetching == s.fetching
            &&& step matches Step::Reply(Reply::Directory(e)) && {
                &&& e.len() == names.len() + 2
                &&& e[0].name == dot() && e[0].ino == ino && e[0].kind == FileType::Directory
                &&& e[1].name == dotdot() && e[1].kind == FileType::Directory
                &&& t.path(e[1].ino) == Some(parent_of(path))
                &&& forall|i: int| 0 <= i < e.len() ==> (#[trigger] e[i]).offset == i + 1
                &&& forall|i: int|
                    #![trigger names[i]]
                    0 <= i < names.len() ==> lists_child(
                        s,
                        t,
                        path,
                        names[i],
                        (e[i + 2].ino, e[i + 2].kind, e[i + 2].name),
                    )
                &&& s.readdir(ino, offset).1 == SpecStep::Reply(
                    Reply::Directory(
                        if offset <= e.len() {
                            e.skip(offset as int)
                        } else {
                            Seq::empty()
                        },
                    ),
                )
            }
        }),
{
    let up = parent_of(path);
    lemma_with_wf(s.inodes, up);
    let a = s.with_ino(up);
    let u = a.dir_used(path);
    let p = position(s.dirs, path);
    assert(at(s.dirs, path, p));
    lemma_at(s.dirs, path, p);
    assert(names.len() <= MAX_LISTING);
    lemma_children_listed(u, path, names);
    let (t, all) = u.children(path, names);
    assert(s.inodes.paths.contains_key(ino));
    assert forall|x: Text| #[trigger] t.listing(x) == s.listing(x) by {
        law_get_changes_no_value(s.dirs, path, x);
    }
    assert forall|x: Text| #[trigger] t.attr(x) == s.attr(x) by {
        assert(u.attr(x) == s.attr(x));
    }
    assert forall|i: u64| (#[trigger] t.path(i)) == s.path(i) || s.path(i) is None by {
        if s.path(i) is Some {
            assert(s.inodes.paths.contains_key(i));
            assert(u.path(i) == s.path(i));
        }
    }
    assert forall|x: Text|
        #![trigger t.inodes.inos.contains_key(x)]
        s.inodes.inos.contains_key(x) implies t.inodes.inos.contains_key(x) && t.inodes.inos[x]
        == s.inodes.inos[x] by {
        assert(u.inodes.inos.contains_key(x));
    }
    let whole = s.dots(ino, path) + all;
    let e = entries_from(whole, 0);
    if offset <= whole.len() {
        law_listing_continues(whole, offset);
    }
    assert(s.readdir(ino, 0).1 == SpecStep::Reply(Reply::Directory(e)));
    assert(e[1].ino == s.inodes.ino(up));
    assert(u.path(s.inodes.ino(up)) == Some(up));
    assert(t.path(e[1].ino) == Some(up));
    assert forall|i: int| #![trigger names[i]] 0 <= i < names.len() implies lists_child(
        s,
        t,
        path,
        names[i],
        (e[i + 2].ino, e[i + 2].kind, e[i + 2].name),
    ) by {
        assert(whole[i + 2] == all[i]);
        assert(lists_child(u, t, path, names[i], all[i]));
        assert(u.attr(child_of(path, names[i])) == s.attr(child_of(path, names[i])));
    }
}

/// A directory whose listing is not cached reads as itself and its parent, and its listing is
/// fetched in the background, unless it is being fetched. Nothing that is cached changes, and
/// no path is taken from an inode. A read from an offset on gives the entries from there on.
pub proof fn law_unlisted_directory_is_fetched(s: FsState, ino: u64, path: Text, offset: u64)
    requires
        s.wf(),
        s.roomy(),
        s.path(ino) == Some(path),
        s.listing(path) is None,
    ensures
        ({
            let (t, step) = s.readdir(ino, offset);
            let n: int = if offset == 0 {
                2
            } else if offset == 1 {
                1
            } else {
                0
            };
            let dots = |e: Entries|
                {
                    let own = e[0];
                    let up = e[n - 1];
                    &&& e.len() == n
                    &&& n == 2 ==> own.name == dot() && own.ino == ino && own.kind
                        == FileType::Directory && own.offset == 1
                    &&& n >= 1 ==> up.name == dotdot() && up.kind == FileType::Directory
                        && t.path(up.ino) == Some(parent_of(path)) && up.offset == 2
                };
            &&& keeps_all(s, t)
            &&& s.fetching.contains(path) ==> {
                &&& step matches Step::Reply(Reply::Directory(e)) && dots(e)
                &&& t.fetching == s.fetching
            }
            &&& !s.fetching.contains(path) ==> {
                &&& step matches Step::ReplyAndSpawn(Reply::Directory(e), task) && dots(e)
                    && task == (Task::<Text, Seq<u8>>::FetchDir { ino, path })
                &&& t.fetching == s.fetching.insert(path)
            }
        }),
{
    lemma_with_wf(s.inodes, parent_of(path));
    assert(s.inodes.paths.contains_key(ino));
    let (t, step) = s.readdir(ino, offset);
    assert forall|i: u64| (#[trigger] t.path(i)) == s.path(i) || s.path(i) is None by {
        if s.path(i) is Some {
            assert(s.inodes.paths.contains_key(i));
        }
    }
}

/// Putting a value moves an entry of another path back by one place at most, and drops it only
/// where that is past the end.
proof fn lemma_stored_moves_back<V>(
    s: Seq<(Text, V)>,
    cap: nat,
    k: Text,
    v: V,
    j: Text,
    i: int,
) -> (r: int)
    requires
        distinct(s),
        at(s, j, i),
        j != k,
        i + 1 < cap,
    ensures
        0 <= r <= i + 1,
        at(stored(s, cap, k, v), j, r),
        stored(s, cap, k, v)[r].1 == s[i].1,
{
    let w = without(s, k);
    if known(s, k) {
        let p = position(s, k);
        assert(at(s, k, p));
        if p < i {
            assert(w[i - 1] == s[i]);
            i
        } else {
            assert(w[i] == s[i]);
            i + 1
        }
    } else {
        i + 1
    }
}

/// What was put last for a child is found, near enough to the front.
proof fn lemma_attrs_put_found(s: FsState, path: Text, l: Listing, i: int) -> (r: int)
    requires
        distinct(s.attrs),
        s.attr_cap > 0,
        0 <= i < l.len() <= i + s.attr_cap,
        forall|j: int| i < j < l.len() ==> (#[trigger] l[j]).0 != l[i].0,
    ensures
        distinct(s.attrs_put(path, l).attrs),
        s.attrs_put(path, l).attr_cap == s.attr_cap,
        0 <= r < l.len() - i,
        at(s.attrs_put(path, l).attrs, child_of(path, l[i].0), r),
        s.attrs_put(path, l).attrs[r].1 == Some(l[i].1),
    decreases l.len(),
{
    let front = l.drop_last();
    let u = s.attrs_put(path, front);
    let key = child_of(path, l.last().0);
    lemma_attrs_put_kept(s, path, front);
    lemma_stored_distinct(u.attrs, s.attr_cap, key, Some(l.last().1));
    if i == l.len() - 1 {
        0
    } else {
        assert forall|j: int| i < j < front.len() implies (#[trigger] front[j]).0 != front[i].0 by {
            assert(front[j] == l[j]);
        }
        let r = lemma_attrs_put_found(s, path, front, i);
        let child = child_of(path, l[i].0);
        if child == key {
            law_children_differ(path, l[i].0, l.last().0);
            assert(l[l.len() - 1].0 != l[i].0);
        }
        lemma_stored_moves_back(u.attrs, s.attr_cap, key, Some(l.last().1), child, r)
    }
}

/// Caching the attributes of children changes no value of another path; where there is room for
/// all, it drops none.
proof fn lemma_attrs_put_kept(s: FsState, path: Text, l: Listing)
    requires
        distinct(s.attrs),
    ensures
        distinct(s.attrs_put(path, l).attrs),
        s.attrs_put(path, l) == (FsState { attrs: s.attrs_put(path, l).attrs, ..s }),
        s.attrs_put(path, l).attrs.len() <= s.attrs.len() + l.len(),
        s.attrs.len() + l.len() <= s.attr_cap ==> forall|x: Text|
            (forall|j: int| 0 <= j < l.len() ==> child_of(path, (#[trigger] l[j]).0) != x)
                ==> #[trigger] s.attrs_put(path, l).attr(x) == s.attr(x),
    decreases l.len(),
{
    if l.len() > 0 {
        let front = l.drop_last();
        let key = child_of(path, l.last().0);
        lemma_attrs_put_kept(s, path, front);
        let u = s.attrs_put(path, front);
        lemma_without(u.attrs, key);
        lemma_stored_distinct(u.attrs, s.attr_cap, key, Some(l.last().1));
        if s.attrs.len() + l.len() <= s.attr_cap {
            assert forall|x: Text|
                (forall|j: int| 0 <= j < l.len() ==> child_of(path, (#[trigger] l[j]).0)
                    != x) implies #[trigger] s.attrs_put(path, l).attr(x) == s.attr(x) by {
                assert(l[l.len() - 1].0 == l.last().0);
                assert forall|j: int| 0 <= j < front.len() implies child_of(
                    path,
                    (#[trigger] front[j]).0,
                ) != x by {
                    assert(front[j] == l[j]);
                }
                assert(u.attr(x) == s.attr(x));
                law_put_keeps_others(u.attrs, s.attr_cap, key, Some(l.last().1), x);
            }
        }
    }
}

/// A fetch caches what the remote listed: the names of the directory in their order, and the
/// attributes of its children, the last where a name comes twice, and of the last children where
/// not all fit. Other
/// listings keep their values, but for the one that was used longest ago, which may have to make
/// room; where there is room for all, other paths keep their attributes. Then the kernel is told
/// that what it knows of the inode is stale.
pub proof fn law_fetch_caches_listing(
    s: FsState,
    ino: u64,
    path: Text,
    l: Listing,
    i: int,
    other: Text,
)
    requires
        s.wf(),
        0 <= i < l.len() <= i + s.attr_cap,
        forall|j: int| i < j < l.len() ==> (#[trigger] l[j]).0 != l[i].0,
    ensures
        ({
            let at = |phase: FetchDirPhase| Pending::FetchDir { ino, path, phase };
            let (t, step) = s.next(at(FetchDirPhase::Listed), Event::Listing(Some(l)));
            let (u, last) = t.next(at(FetchDirPhase::Invalidated), Event::Unit);
            &&& step == SpecStep::Perform(Action::Invalidate { ino }, at(FetchDirPhase::Invalidated))
            &&& last == SpecStep::Reply(Reply::Finished)
            &&& u.listing(path) matches Some(names) && names.len() == l.len() && names[i] == l[i].0
            &&& u.attr(child_of(path, l[i].0)) == Some(Some(l[i].1))
            &&& u.fetching == s.fetching.remove(path)
            &&& t == (FsState { attrs: t.attrs, dirs: t.dirs, ..s })
            &&& u == (FsState { fetching: u.fetching, ..t })
            &&& other != path && !(s.dirs.len() == s.dir_cap && s.listing(path) is None
                && s.dirs.last().0 == other) ==> u.listing(other) == s.listing(other)
            &&& s.attrs.len() + l.len() <= s.attr_cap && (forall|j: int|
                0 <= j < l.len() ==> child_of(path, (#[trigger] l[j]).0) != other) ==> u.attr(other)
                == s.attr(other)
        }),
{
    let names = listed_names(l);
    let a = s.dir_put(path, names);
    law_put_then_get(s.dirs, s.dir_cap, path, names);
    if other != path {
        law_put_keeps_others(s.dirs, s.dir_cap, path, names, other);
    }
    let r = lemma_attrs_put_found(a, path, l, i);
    let t = a.attrs_put(path, l);
    lemma_at(t.attrs, child_of(path, l[i].0), r);
    lemma_attrs_put_kept(a, path, l);
    if s.attrs.len() + l.len() <= s.attr_cap && (forall|j: int|
        0 <= j < l.len() ==> child_of(path, (#[trigger] l[j]).0) != other) {
        assert(t.attr(other) == a.attr(other));
    }
}

/// After a fetch, a directory reads as the remote lists it, with the remote's kinds: every entry
/// whose attributes fit in the attribute cache is a directory, a link or a regular file as the attributes
/// tell that the remote listed for it.
pub proof fn law_fetched_kinds_are_shown(s: FsState, ino: u64, path: Text, l: Listing, i: int)
    requires
        s.wf(),
        s.roomy(),
        s.path(ino) == Some(path),
        0 <= i < l.len() <= i + s.attr_cap,
        l.len() <= MAX_LISTING,
        forall|j: int| i < j < l.len() ==> (#[trigger] l[j]).0 != l[i].0,
    ensures
        ({
            let at = |phase: FetchDirPhase| Pending::FetchDir { ino, path, phase };
            let t = s.next(at(FetchDirPhase::Listed), Event::Listing(Some(l))).0;
            let u = t.next(at(FetchDirPhase::Invalidated), Event::Unit).0;
            &&& u.readdir(ino, 0).1 matches Step::Reply(Reply::Directory(e)) && {
                &&& e.len() == l.len() + 2
                &&& e[i + 2].name == l[i].0
                &&& kind_of(l[i].1.perm) == FileType::Directory ==> e[i + 2].kind
                    == FileType::Directory
                &&& kind_of(l[i].1.perm) == FileType::Symlink ==> e[i + 2].kind
                    == FileType::Symlink
                &&& kind_of(l[i].1.perm) != FileType::Directory && kind_of(l[i].1.perm)
                    != FileType::Symlink ==> e[i + 2].kind == FileType::RegularFile
                &&& u.readdir(ino, 0).0.path(e[i + 2].ino) == Some(child_of(path, l[i].0))
            }
        }),
{
    let names = listed_names(l);
    let a = s.dir_put(path, names);
    law_fetch_caches_listing(s, ino, path, l, i, path);
    law_put_then_get(s.dirs, s.dir_cap, path, names);
    lemma_attrs_put_kept(a, path, l);
    let u = a.attrs_put(path, l).fetched(path);
    lemma_attrs_put_fits(a, path, l);
    lemma_stored_distinct(s.dirs, s.dir_cap, path, names);
    lemma_stored_countable(s.dirs, s.dir_cap, path, names);
    lemma_without(s.dirs, path);
    assert(u.wf());
    law_listing_shows_children(u, ino, path, names, 0);
    assert(names[i] == l[i].0);
}

proof fn lemma_attrs_put_fits(s: FsState, path: Text, l: Listing)
    requires
        distinct(s.attrs),
        s.attrs.len() <= s.attr_cap,
    ensures
        s.attrs_put(path, l).attrs.len() <= s.attr_cap,
    decreases l.len(),
{
    if l.len() > 0 {
        lemma_attrs_put_fits(s, path, l.drop_last());
        lemma_attrs_put_kept(s, path, l.drop_last());
        let u = s.attrs_put(path, l.drop_last());
        lemma_without(u.attrs, child_of(path, l.last().0));
    }
}

} // verus!
