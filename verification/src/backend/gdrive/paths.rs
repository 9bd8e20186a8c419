//! Paths on Google Drive.
//!
//! Drive knows files by opaque ids. The path cache remembers the id of every path that was
//! listed.

use vstd::hash_map::StringHashMap;
use vstd::prelude::*;

use crate::backend::gdrive::client::{models, DriveFile, FileModel, Text};
use crate::number::{decimal, lemma_decimal_injective, to_decimal};
use crate::text::{after, cat2, cat3, chars_of, find_last, has_char, last_at, law_prefix_and_rest};
use crate::text::{same, starts, starts_with, string_of, strip_prefix, views};

verus! {

// ---------------------------------------------------------------------------
// Parts of a path
// ---------------------------------------------------------------------------

/// The path of the root.
pub open spec fn root() -> Text {
    "/"@
}

/// The path of the virtual trash directory.
pub open spec fn trash_path() -> Text {
    "/.Trash"@
}

/// What stands for the id of the trash.
pub open spec fn trash_id() -> Text {
    "__trash__"@
}

/// Where the last separator of a path is.
pub open spec fn last_slash(path: Text) -> int {
    choose|i: int| last_at(path, '/', i)
}

/// The path of the directory that holds `path`.
pub open spec fn parent_text(path: Text) -> Text {
    if path.contains('/') && last_slash(path) > 0 {
        path.take(last_slash(path))
    } else {
        root()
    }
}

/// The name of the entry that `path` leads to.
pub open spec fn base_text(path: Text) -> Text {
    if path.contains('/') {
        path.skip(last_slash(path) + 1)
    } else {
        path
    }
}

/// The path of the entry `name` in the directory `parent`.
pub open spec fn child_text(parent: Text, name: Text) -> Text {
    if parent == root() {
        root() + name
    } else {
        parent + root() + name
    }
}

/// `path` is a direct child of the trash.
pub open spec fn in_trash(path: Text) -> bool {
    match after(path, "/.Trash/"@) {
        Some(name) => name.len() > 0 && !name.contains('/'),
        None => false,
    }
}

/// `path` lies inside the trash, at any depth.
pub open spec fn inside_trash(path: Text) -> bool {
    starts(path, "/.Trash/"@)
}

proof fn lemma_last_slash(path: Text, i: int)
    requires
        last_at(path, '/', i),
    ensures
        path.contains('/'),
        last_slash(path) == i,
{
    assert(path[i] == '/');
    let k = last_slash(path);
    assert(last_at(path, '/', k));
    if i < k {
        assert(path[k] != '/');
    }
    if k < i {
        assert(path[i] != '/');
    }
}

/// The path of the directory that holds a path.
pub fn parent_path(path: &str) -> (r: String)
    ensures
        r@ == parent_text(path@),
{
    let v = chars_of(path);
    match find_last(&v, '/') {
        Some(i) => {
            proof {
                lemma_last_slash(path@, i as int);
            }
            if i == 0 {
                "/".to_owned()
            } else {
                let r = string_of(&v, 0, i);
                assert(r@ =~= path@.take(i as int));
                r
            }
        },
        None => "/".to_owned(),
    }
}

/// The name of the entry that a path leads to.
pub fn base_name(path: &str) -> (r: String)
    ensures
        r@ == base_text(path@),
{
    let v = chars_of(path);
    match find_last(&v, '/') {
        Some(i) => {
            proof {
                lemma_last_slash(path@, i as int);
            }
            let n = v.len();
            let r = string_of(&v, i + 1, n);
            assert(r@ =~= path@.skip(i + 1));
            r
        },
        None => path.to_owned(),
    }
}

/// The path of an entry in a directory.
pub fn child_path(parent: &str, name: &str) -> (r: String)
    ensures
        r@ == child_text(parent@, name@),
{
    if same(parent, "/") {
        cat2("/", name)
    } else {
        cat3(parent, "/", name)
    }
}

/// Tells whether a path is a direct child of the trash.
pub fn is_in_trash(path: &str) -> (r: bool)
    ensures
        r == in_trash(path@),
{
    match strip_prefix(path, "/.Trash/") {
        Some(name) => !name.as_str().is_empty() && !has_char(name.as_str(), '/'),
        None => false,
    }
}

/// Tells whether a path lies inside the trash, at any depth.
pub fn is_inside_trash(path: &str) -> (r: bool)
    ensures
        r == inside_trash(path@),
{
    starts_with(path, "/.Trash/")
}

/// The direct children of the trash lie inside it, and so does what lies below them; neither
/// the trash itself nor what has another first name does.
pub proof fn law_trash_has_depth(path: Text, rest: Text)
    ensures
        in_trash(path) ==> inside_trash(path),
        inside_trash(path) ==> inside_trash(path + rest),
        !inside_trash(trash_path()),
        inside_trash(path) ==> starts(path, trash_path() + root()),
{
    reveal_strlit("/.Trash");
    reveal_strlit("/.Trash/");
    reveal_strlit("/");
    assert("/.Trash/"@ =~= trash_path() + root());
    if inside_trash(path) {
        assert((path + rest).subrange(0, 8) =~= path.subrange(0, 8));
    }
}

/// A path that is not the root is longer than its parent, or its parent is the root.
pub proof fn lemma_parent_shorter(path: Text)
    ensures
        parent_text(path) == root() || parent_text(path).len() < path.len(),
{
    if path.contains('/') {
        lemma_last_exists(path);
        let i = last_slash(path);
        assert(last_at(path, '/', i));
    }
}

proof fn lemma_last_exists(s: Text)
    requires
        s.contains('/'),
    ensures
        exists|i: int| last_at(s, '/', i),
    decreases s.len(),
{
    let k = choose|k: int| 0 <= k < s.len() && s[k] == '/';
    if s.last() == '/' {
        assert(last_at(s, '/', s.len() - 1));
    } else {
        let t = s.drop_last();
        assert(t[k] == '/');
        lemma_last_exists(t);
        let i = choose|i: int| last_at(t, '/', i);
        assert forall|j: int| i < j < s.len() implies s[j] != '/' by {
            if j < t.len() {
                assert(t[j] == s[j]);
            }
        }
        assert(last_at(s, '/', i));
    }
}

/// A child is in its directory under its name: the parts of a child's path are the
/// directory and the name.
pub proof fn law_child_parts(parent: Text, name: Text)
    requires
        !name.contains('/'),
        parent.len() > 0,
    ensures
        parent_text(child_text(parent, name)) == parent,
        base_text(child_text(parent, name)) == name,
{
    reveal_strlit("/");
    let p = child_text(parent, name);
    let i = p.len() - name.len() - 1;
    assert(p[i] == '/');
    assert forall|j: int| i < j < p.len() implies p[j] != '/' by {
        assert(p[j] == name[j - i - 1]);
    }
    assert(last_at(p, '/', i));
    lemma_last_slash(p, i);
    assert(p.skip(i + 1) =~= name);
    if parent == root() {
        assert(i == 0);
    } else {
        assert(p.take(i) =~= parent);
    }
}

// ---------------------------------------------------------------------------
// The path cache
// ---------------------------------------------------------------------------

/// `m` without the paths that start with `prefix`.
pub open spec fn removed(m: Map<Text, Text>, prefix: Text) -> Map<Text, Text> {
    Map::new(|k: Text| m.contains_key(k) && !starts(k, prefix), |k: Text| m[k])
}

/// `k` is `dir` or lies below it.
pub open spec fn below(k: Text, dir: Text) -> bool {
    k == dir || starts(k, dir + root())
}

/// The path that `k` had before what is at or below `before` moved to `after`.
pub open spec fn source(k: Text, before: Text, after: Text) -> Text {
    before + k.skip(after.len() as int)
}

/// The path that `k` has once what is at or below `before` moved to `after`.
pub open spec fn target(k: Text, before: Text, after: Text) -> Text {
    after + k.skip(before.len() as int)
}

/// Something in `m` moves to `k`.
pub open spec fn moves_to(m: Map<Text, Text>, k: Text, before: Text, after: Text) -> bool {
    starts(k, after) && below(source(k, before, after), before) && m.contains_key(
        source(k, before, after),
    )
}

/// `m` once what is at or below `before` moved to `after`.
pub open spec fn moved(m: Map<Text, Text>, before: Text, after: Text) -> Map<Text, Text> {
    Map::new(
        |k: Text| moves_to(m, k, before, after) || (m.contains_key(k) && !below(k, before)),
        |k: Text|
            if moves_to(m, k, before, after) {
                m[source(k, before, after)]
            } else {
                m[k]
            },
    )
}

/// The ids of paths.
pub struct PathCache {
    entries: StringHashMap<String>,
    /// The paths that have an id, among others.
    keys: Vec<String>,
}

impl View for PathCache {
    type V = Map<Text, Text>;

    closed spec fn view(&self) -> Map<Text, Text> {
        self.entries@.map_values(|s: String| s@)
    }
}

/// `k` is one of the keys from `from` on.
spec fn listed(keys: Seq<String>, from: int, k: Text) -> bool {
    exists|i: int| from <= i < keys.len() && (#[trigger] keys[i])@ == k
}

impl PathCache {
    /// Every path that has an id is among the keys.
    pub closed spec fn wf(&self) -> bool {
        forall|k: Text| #[trigger] self.entries@.contains_key(k) ==> listed(self.keys@, 0, k)
    }

    /// A cache that knows the id of the root.
    pub fn new(root_id: String) -> (c: Self)
        ensures
            c.wf(),
            c@ == map![root() => root_id@],
    {
        let mut c = PathCache { entries: StringHashMap::new(), keys: Vec::new() };
        assert(c@ =~= Map::<Text, Text>::empty());
        c.insert("/".to_owned(), root_id);
        assert(c@ =~= map![root() => root_id@]);
        c
    }

    /// The id of a path.
    pub fn get(&self, path: &str) -> (r: Option<String>)
        ensures
            match r {
                Some(id) => self@.contains_key(path@) && self@[path@] == id@,
                None => !self@.contains_key(path@),
            },
    {
        match self.entries.get(path) {
            Some(id) => Some(id.clone()),
            None => None,
        }
    }

    /// Puts the id of a path in.
    pub fn insert(&mut self, path: String, id: String)
        requires
            old(self).wf(),
        ensures
            final(self).wf(),
            final(self)@ == old(self)@.insert(path@, id@),
    {
        let ghost keys = self.keys@;
        if !self.entries.contains_key(path.as_str()) {
            self.keys.push(path.clone());
            assert(self.keys@[keys.len() as int]@ == path@);
        }
        let ghost before = self.entries@;
        self.entries.insert(path, id);
        proof {
            assert(self@ =~= old(self)@.insert(path@, id@));
            assert forall|k: Text| #[trigger] self.entries@.contains_key(k) implies listed(
                self.keys@,
                0,
                k,
            ) by {
                if before.contains_key(k) {
                    assert(listed(keys, 0, k));
                    let i = choose|i: int| 0 <= i < keys.len() && (#[trigger] keys[i])@ == k;
                    assert(self.keys@[i]@ == k);
                }
            }
        }
    }

    /// Forgets the paths that start with `prefix`.
    pub fn remove_prefix(&mut self, prefix: &str)
        requires
            old(self).wf(),
        ensures
            final(self).wf(),
            final(self)@ == removed(old(self)@, prefix@),
    {
        let mut kept: Vec<String> = Vec::new();
        let mut i: usize = 0;
        while i < self.keys.len()
            invariant
                i <= self.keys@.len(),
                self.keys@ == old(self).keys@,
                forall|k: Text| #[trigger]
                    self.entries@.contains_key(k) ==> listed(self.keys@, i as int, k) || listed(
                        kept@,
                        0,
                        k,
                    ),
                forall|j: int| 0 <= j < kept@.len() ==> !starts((#[trigger] kept@[j])@, prefix@),
                forall|k: Text| #[trigger]
                    self.entries@.contains_key(k) ==> old(self).entries@.contains_key(k)
                        && self.entries@[k] == old(self).entries@[k],
                forall|k: Text| #[trigger]
                    old(self).entries@.contains_key(k) && !starts(k, prefix@)
                        ==> self.entries@.contains_key(k),
            decreases self.keys@.len() - i,
        {
            let key = self.keys[i].clone();
            let ghost before = self.entries@;
            let ghost had = kept@;
            if starts_with(key.as_str(), prefix) {
                self.entries.remove(key.as_str());
            } else {
                kept.push(key);
                assert(kept@[had.len() as int]@ == self.keys@[i as int]@);
            }
            proof {
                assert forall|k: Text| #[trigger] self.entries@.contains_key(k) implies listed(
                    self.keys@,
                    i + 1,
                    k,
                ) || listed(kept@, 0, k) by {
                    assert(before.contains_key(k));
                    if listed(had, 0, k) {
                        let j = choose|j: int| 0 <= j < had.len() && (#[trigger] had[j])@ == k;
                        assert(kept@[j]@ == k);
                    } else {
                        let j = choose|j: int|
                            i <= j < self.keys@.len() && (#[trigger] self.keys@[j])@ == k;
                        if j == i {
                            assert(kept@[had.len() as int]@ == k);
                        } else {
                            assert(i + 1 <= j);
                        }
                    }
                }
            }
            i = i + 1;
        }
        self.keys = kept;
        proof {
            assert forall|k: Text| #[trigger] self.entries@.contains_key(k) implies !starts(
                k,
                prefix@,
            ) by {
                let j = choose|j: int|
                    0 <= j < self.keys@.len() && (#[trigger] self.keys@[j])@ == k;
                assert(!starts(self.keys@[j]@, prefix@));
            }
            assert(self@ =~= removed(old(self)@, prefix@));
        }
    }

    /// Moves what is at or below `before` to `after`.
    pub fn rename_prefix(&mut self, before: &str, after: &str)
        requires
            old(self).wf(),
        ensures
            final(self).wf(),
            final(self)@ == moved(old(self)@, before@, after@),
    {
        let ghost m = self@;
        let below_before = cat2(before, "/");
        let skip = chars_of(before).len();
        let mut kept: Vec<String> = Vec::new();
        let mut todo: Vec<(String, String)> = Vec::new();
        let ghost mut srcs: Seq<Text> = Seq::empty();
        let mut i: usize = 0;
        while i < self.keys.len()
            invariant
                i <= self.keys@.len(),
                self.keys@ == old(self).keys@,
                m == old(self)@,
                below_before@ == before@ + root(),
                skip == before@.len(),
                forall|k: Text| #[trigger]
                    self@.contains_key(k) ==> listed(self.keys@, i as int, k) || listed(
                        kept@,
                        0,
                        k,
                    ),
                forall|j: int| 0 <= j < kept@.len() ==> !below((#[trigger] kept@[j])@, before@),
                forall|k: Text| #[trigger]
                    self@.contains_key(k) ==> m.contains_key(k) && self@[k] == m[k],
                forall|k: Text| #[trigger]
                    m.contains_key(k) ==> self@.contains_key(k) || srcs.contains(k),
                todo@.len() == srcs.len(),
                forall|j: int|
                    0 <= j < srcs.len() ==> below(#[trigger] srcs[j], before@) && m.contains_key(
                        srcs[j],
                    ) && todo@[j].0@ == target(srcs[j], before@, after@) && todo@[j].1@
                        == m[srcs[j]],
            decreases self.keys@.len() - i,
        {
            let key = self.keys[i].clone();
            let ghost cur = self@;
            let ghost had = kept@;
            let ghost had_srcs = srcs;
            if same(key.as_str(), before) || starts_with(key.as_str(), below_before.as_str()) {
                match self.entries.get(key.as_str()) {
                    Some(id) => {
                        let chars = chars_of(key.as_str());
                        let rest = string_of(&chars, skip, chars.len());
                        assert(rest@ =~= key@.skip(skip as int));
                        todo.push((cat2(after, rest.as_str()), id.clone()));
                        proof {
                            srcs = srcs.push(key@);
                            assert(cur.contains_key(key@));
                        }
                    },
                    None => {},
                }
                self.entries.remove(key.as_str());
                assert(self@ =~= cur.remove(key@));
            } else {
                kept.push(key);
                assert(kept@[had.len() as int]@ == self.keys@[i as int]@);
            }
            proof {
                assert forall|k: Text| #[trigger] self@.contains_key(k) implies listed(
                    self.keys@,
                    i + 1,
                    k,
                ) || listed(kept@, 0, k) by {
                    assert(cur.contains_key(k));
                    if listed(had, 0, k) {
                        let j = choose|j: int| 0 <= j < had.len() && (#[trigger] had[j])@ == k;
                        assert(kept@[j]@ == k);
                    } else {
                        let j = choose|j: int|
                            i <= j < self.keys@.len() && (#[trigger] self.keys@[j])@ == k;
                        if j == i {
                            assert(kept@[had.len() as int]@ == k);
                        } else {
                            assert(i + 1 <= j);
                        }
                    }
                }
                assert forall|k: Text| #[trigger] m.contains_key(k) implies self@.contains_key(k)
                    || srcs.contains(k) by {
                    if had_srcs.contains(k) {
                        let j = choose|j: int| 0 <= j < had_srcs.len() && had_srcs[j] == k;
                        assert(srcs[j] == k);
                    } else if !self@.contains_key(k) {
                        assert(k == self.keys@[i as int]@);
                        assert(srcs[had_srcs.len() as int] == k);
                    }
                }
            }
            i = i + 1;
        }
        let ghost rest = self@;
        proof {
            assert forall|k: Text| #[trigger] rest.contains_key(k) implies !below(k, before@) by {
                assert(self@.contains_key(k));
                let j = choose|j: int| 0 <= j < kept@.len() && (#[trigger] kept@[j])@ == k;
                assert(!below(kept@[j]@, before@));
            }
            assert forall|k: Text| #[trigger] self.entries@.contains_key(k) implies listed(
                kept@,
                0,
                k,
            ) by {
                assert(self@.contains_key(k));
            }
        }
        self.keys = kept;
        self.insert_all(todo);
        proof {
            let t = moved(m, before@, after@);
            let list = pair_views(todo@);
            lemma_inserted(rest, list);
            assert forall|j: int| 0 <= j < list.len() implies moves_to(
                m,
                (#[trigger] list[j]).0,
                before@,
                after@,
            ) && t[list[j].0] == list[j].1 by {
                lemma_target(srcs[j], before@, after@);
            }
            assert forall|k: Text| #[trigger] self@.contains_key(k) == t.contains_key(k) by {
                if moves_to(m, k, before@, after@) {
                    let s = source(k, before@, after@);
                    assert(m.contains_key(s));
                    assert(!rest.contains_key(s));
                    let j = choose|j: int| 0 <= j < srcs.len() && srcs[j] == s;
                    lemma_source(k, before@, after@);
                    assert(list[j].0 == k);
                } else if !rest.contains_key(k) && self@.contains_key(k) {
                    let j = choose|j: int| 0 <= j < list.len() && (#[trigger] list[j]).0 == k;
                    assert(moves_to(m, list[j].0, before@, after@));
                }
            }
            assert forall|k: Text| #[trigger] self@.contains_key(k) implies self@[k] == t[k] by {
                if exists|j: int| 0 <= j < list.len() && (#[trigger] list[j]).0 == k {
                } else {
                    assert(rest.contains_key(k));
                    if moves_to(m, k, before@, after@) {
                        let s = source(k, before@, after@);
                        assert(!rest.contains_key(s));
                        let j = choose|j: int| 0 <= j < srcs.len() && srcs[j] == s;
                        lemma_source(k, before@, after@);
                        assert(list[j].0 == k);
                    }
                }
            }
            assert(self@ =~= t);
        }
    }

    /// Puts the ids of paths in, in order.
    pub fn insert_all(&mut self, todo: Vec<(String, String)>)
        requires
            old(self).wf(),
        ensures
            final(self).wf(),
            final(self)@ == inserted(old(self)@, pair_views(todo@)),
    {
        let ghost s = pair_views(todo@);
        let ghost m = self@;
        let mut i: usize = 0;
        assert(s.take(0) =~= Seq::<(Text, Text)>::empty());
        while i < todo.len()
            invariant
                self.wf(),
                s == pair_views(todo@),
                i <= todo@.len(),
                self@ == inserted(m, s.take(i as int)),
            decreases todo@.len() - i,
        {
            proof {
                assert(s.take(i + 1).drop_last() =~= s.take(i as int));
            }
            self.insert(todo[i].0.clone(), todo[i].1.clone());
            i = i + 1;
        }
        assert(s.take(i as int) =~= s);
    }
}

/// The view of a list of paths and ids.
pub open spec fn pair_views(v: Seq<(String, String)>) -> Seq<(Text, Text)> {
    v.map_values(|p: (String, String)| (p.0@, p.1@))
}

/// `m` once the ids of paths were put in, in order.
pub open spec fn inserted(m: Map<Text, Text>, s: Seq<(Text, Text)>) -> Map<Text, Text>
    decreases s.len(),
{
    if s.len() == 0 {
        m
    } else {
        inserted(m, s.drop_last()).insert(s.last().0, s.last().1)
    }
}

/// What was put in is there: under each path the id that came last, and nothing else is new.
pub proof fn lemma_inserted(m: Map<Text, Text>, s: Seq<(Text, Text)>)
    ensures
        forall|k: Text| #[trigger]
            inserted(m, s).contains_key(k) <==> m.contains_key(k) || exists|j: int|
                0 <= j < s.len() && (#[trigger] s[j]).0 == k,
        forall|k: Text| #[trigger]
            inserted(m, s).contains_key(k) ==> (exists|j: int|
                0 <= j < s.len() && (#[trigger] s[j]).0 == k && s[j].1 == inserted(m, s)[k]) || (
            m.contains_key(k) && inserted(m, s)[k] == m[k] && forall|j: int|
                0 <= j < s.len() ==> (#[trigger] s[j]).0 != k),
    decreases s.len(),
{
    if s.len() > 0 {
        let t = s.drop_last();
        lemma_inserted(m, t);
        let a = inserted(m, t);
        let b = inserted(m, s);
        assert(s[s.len() - 1] == s.last());
        assert forall|k: Text| #[trigger] b.contains_key(k) <==> m.contains_key(k) || exists|j: int|
            0 <= j < s.len() && (#[trigger] s[j]).0 == k by {
            if a.contains_key(k) && !m.contains_key(k) {
                let j = choose|j: int| 0 <= j < t.len() && (#[trigger] t[j]).0 == k;
                assert(s[j].0 == k);
            }
            if !m.contains_key(k) && exists|j: int| 0 <= j < s.len() && (#[trigger] s[j]).0 == k {
                let j = choose|j: int| 0 <= j < s.len() && (#[trigger] s[j]).0 == k;
                if j < t.len() {
                    assert(t[j].0 == k);
                }
            }
        }
        assert forall|k: Text| #[trigger] b.contains_key(k) implies (exists|j: int|
            0 <= j < s.len() && (#[trigger] s[j]).0 == k && s[j].1 == b[k]) || (m.contains_key(k)
            && b[k] == m[k] && forall|j: int| 0 <= j < s.len() ==> (#[trigger] s[j]).0 != k) by {
            if k == s.last().0 {
                assert(s[s.len() - 1].0 == k && s[s.len() - 1].1 == b[k]);
            } else {
                assert(a.contains_key(k));
                if exists|j: int| 0 <= j < t.len() && (#[trigger] t[j]).0 == k && t[j].1 == a[k] {
                    let j = choose|j: int|
                        0 <= j < t.len() && (#[trigger] t[j]).0 == k && t[j].1 == a[k];
                    assert(s[j].0 == k && s[j].1 == b[k]);
                } else {
                    assert forall|j: int| 0 <= j < s.len() implies (#[trigger] s[j]).0 != k by {
                        if j < t.len() {
                            assert(t[j].0 != k);
                        }
                    }
                }
            }
        }
    }
}

proof fn lemma_target(k: Text, before: Text, after: Text)
    requires
        below(k, before),
    ensures
        starts(target(k, before, after), after),
        source(target(k, before, after), before, after) == k,
{
    let t = target(k, before, after);
    assert(t.skip(after.len() as int) =~= k.skip(before.len() as int));
    reveal_strlit("/");
    assert(starts(k, before)) by {
        if k != before {
            assert(k.subrange(0, before.len() as int) =~= before) by {
                assert(starts(k, before + root()));
                assert forall|i: int| 0 <= i < before.len() implies k[i] == before[i] by {
                    assert(k[i] == (before + root())[i]);
                }
            }
        }
    }
    assert(before + k.skip(before.len() as int) =~= k) by {
        assert forall|i: int| 0 <= i < before.len() implies k[i] == before[i] by {
            assert(k.subrange(0, before.len() as int)[i] == k[i]);
        }
    }
}

proof fn lemma_source(k: Text, before: Text, after: Text)
    requires
        starts(k, after),
    ensures
        target(source(k, before, after), before, after) == k,
{
    let s = source(k, before, after);
    assert(s.skip(before.len() as int) =~= k.skip(after.len() as int));
    assert(after + k.skip(after.len() as int) =~= k) by {
        assert forall|i: int| 0 <= i < after.len() implies k[i] == after[i] by {
            assert(k.subrange(0, after.len() as int)[i] == k[i]);
        }
    }
}

// ---------------------------------------------------------------------------
// Laws of the path cache
// ---------------------------------------------------------------------------

/// After a move, what was at or below the old path is found at or below the new one, with
/// the same id.
pub proof fn law_move_carries_ids(m: Map<Text, Text>, before: Text, after: Text, k: Text)
    requires
        m.contains_key(k),
        below(k, before),
    ensures
        moved(m, before, after).contains_key(target(k, before, after)),
        moved(m, before, after)[target(k, before, after)] == m[k],
{
    lemma_target(k, before, after);
}

/// A move leaves every path alone that lies neither at or below the old path nor at or below
/// the new one.
pub proof fn law_move_keeps_others(m: Map<Text, Text>, before: Text, after: Text, k: Text)
    requires
        !below(k, before),
        !below(k, after),
    ensures
        moved(m, before, after).contains_key(k) == m.contains_key(k),
        m.contains_key(k) ==> moved(m, before, after)[k] == m[k],
{
    if moves_to(m, k, before, after) {
        let s = source(k, before, after);
        let rest = k.skip(after.len() as int);
        lemma_source(k, before, after);
        reveal_strlit("/");
        if s == before {
            assert(rest =~= s.skip(before.len() as int));
            assert(k =~= after);
        } else {
            assert(s[before.len() as int] == (before + root())[before.len() as int]);
            assert(rest[0] == '/');
            assert(k.subrange(0, after.len() as int + 1) =~= after + root());
        }
    }
}

/// After a move, nothing is found at or below the old path, unless it is at or below the new one
/// too.
pub proof fn law_move_leaves_nothing(m: Map<Text, Text>, before: Text, after: Text, k: Text)
    requires
        below(k, before),
        !below(k, after),
    ensures
        !moved(m, before, after).contains_key(k),
{
    if moves_to(m, k, before, after) {
        let s = source(k, before, after);
        let rest = k.skip(after.len() as int);
        lemma_source(k, before, after);
        reveal_strlit("/");
        if s == before {
            assert(rest =~= s.skip(before.len() as int));
            assert(k =~= after);
        } else {
            assert(s[before.len() as int] == (before + root())[before.len() as int]);
            assert(rest[0] == '/');
            assert(k.subrange(0, after.len() as int + 1) =~= after + root());
        }
    }
}

/// The path of what moved is the new path followed by what the old path was followed by; the
/// path itself becomes the new one.
pub proof fn law_moved_paths(before: Text, after: Text, rest: Text)
    ensures
        target(before, before, after) == after,
        target(before + root() + rest, before, after) == after + root() + rest,
{
    reveal_strlit("/");
    assert(before.skip(before.len() as int) =~= Seq::<char>::empty());
    assert(target(before, before, after) =~= after);
    assert((before + root() + rest).skip(before.len() as int) =~= root() + rest);
    assert(target(before + root() + rest, before, after) =~= after + root() + rest);
}

/// Removing a path forgets it and everything below it, and keeps every path that does not
/// start with it.
pub proof fn law_remove_forgets_below(m: Map<Text, Text>, path: Text, k: Text)
    ensures
        below(k, path) ==> !removed(m, path).contains_key(k),
        starts(k, path) ==> !removed(m, path).contains_key(k),
        !starts(k, path) ==> removed(m, path).contains_key(k) == m.contains_key(k),
        !starts(k, path) && m.contains_key(k) ==> removed(m, path)[k] == m[k],
{
    if below(k, path) {
        if k == path {
            assert(k.subrange(0, path.len() as int) =~= path);
        } else {
            reveal_strlit("/");
            assert(k.subrange(0, path.len() as int) =~= path) by {
                assert forall|i: int| 0 <= i < path.len() implies k[i] == path[i] by {
                    assert(k[i] == (path + root())[i]);
                }
            }
        }
    }
}

// ---------------------------------------------------------------------------
// Names in the trash
// ---------------------------------------------------------------------------

/// How many of the first `i` names are `name`.
pub open spec fn occurrences(names: Seq<Text>, name: Text, i: int) -> int
    decreases i,
{
    if i <= 0 {
        0
    } else {
        occurrences(names, name, i - 1) + (if names[i - 1] == name {
            1int
        } else {
            0int
        })
    }
}

/// The name of a file in the trash: its own, with `_1`, `_2`, … appended to all but the first
/// of those that share it.
pub open spec fn trash_name(names: Seq<Text>, i: int) -> Text {
    let n = occurrences(names, names[i], i);
    if n == 0 {
        names[i]
    } else {
        names[i] + "_"@ + decimal(n)
    }
}

/// The names of files.
pub open spec fn file_names(files: Seq<FileModel>) -> Seq<Text> {
    files.map_values(|f: FileModel| f.name)
}

/// The names of all files in the trash.
pub open spec fn trash_names(files: Seq<FileModel>) -> Seq<Text> {
    Seq::new(files.len(), |i: int| trash_name(file_names(files), i))
}

proof fn lemma_occurrences(names: Seq<Text>, name: Text, i: int)
    ensures
        0 <= occurrences(names, name, i),
        i >= 0 ==> occurrences(names, name, i) <= i,
    decreases i,
{
    if i > 0 {
        lemma_occurrences(names, name, i - 1);
    }
}

/// Names the files in the trash.
pub fn name_trash(files: &Vec<DriveFile>) -> (r: Vec<String>)
    ensures
        views(r@) == trash_names(models(files@)),
{
    let ghost names = file_names(models(files@));
    let mut counts: StringHashMap<u64> = StringHashMap::new();
    let mut r: Vec<String> = Vec::new();
    let mut i: usize = 0;
    while i < files.len()
        invariant
            i <= files@.len(),
            names == file_names(models(files@)),
            r@.len() == i,
            forall|j: int| 0 <= j < i ==> (#[trigger] r@[j])@ == trash_name(names, j),
            forall|n: Text|
                occurrences(names, n, i as int) == (if #[trigger] counts@.contains_key(n) {
                    counts@[n] as int
                } else {
                    0
                }),
        decreases files@.len() - i,
    {
        let name = files[i].name.clone();
        proof {
            assert(names[i as int] == name@);
            lemma_occurrences(names, name@, i as int);
        }
        let seen: u64 = match counts.get(name.as_str()) {
            Some(n) => *n,
            None => 0,
        };
        let ghost before = counts@;
        assert(before.contains_key(name@) || !before.contains_key(name@));
        let shown = if seen == 0 {
            name.clone()
        } else {
            cat3(name.as_str(), "_", to_decimal(seen).as_str())
        };
        r.push(shown);
        counts.insert(name, seen + 1);
        proof {
            assert forall|n: Text|
                occurrences(names, n, i + 1) == (if #[trigger] counts@.contains_key(n) {
                    counts@[n] as int
                } else {
                    0
                }) by {
                assert(before.contains_key(n) || !before.contains_key(n));
            }
        }
        i = i + 1;
    }
    assert(views(r@) =~= trash_names(models(files@)));
    r
}

/// Two files in the trash that share a name are shown under different names.
pub proof fn law_trash_duplicates_differ(names: Seq<Text>, i: int, j: int)
    requires
        0 <= i < j < names.len(),
        names[i] == names[j],
    ensures
        trash_name(names, i) != trash_name(names, j),
{
    let n = names[i];
    lemma_occurrences_grow(names, n, i + 1, j);
    lemma_occurrences(names, n, i);
    let a = occurrences(names, n, i);
    let b = occurrences(names, n, j);
    assert(a < b);
    let tail_a = trash_name(names, i).skip(n.len() as int);
    let tail_b = trash_name(names, j).skip(n.len() as int);
    assert(tail_b =~= "_"@ + decimal(b));
    reveal_strlit("_");
    if a == 0 {
        assert(tail_a =~= Seq::<char>::empty());
    } else {
        assert(tail_a =~= "_"@ + decimal(a));
        if tail_a == tail_b {
            assert(tail_a.skip(1) =~= decimal(a));
            assert(tail_b.skip(1) =~= decimal(b));
            lemma_decimal_injective(a, b);
        }
    }
}

proof fn lemma_occurrences_grow(names: Seq<Text>, n: Text, i: int, j: int)
    requires
        0 <= i <= j,
    ensures
        occurrences(names, n, i) <= occurrences(names, n, j),
    decreases j - i,
{
    if i < j {
        lemma_occurrences_grow(names, n, i, j - 1);
    }
}

/// Files in the trash that share a name are numbered in their order: the first has its own name,
/// and each other one has the name with the number after that of the one before it.
pub proof fn law_trash_numbers_in_order(names: Seq<Text>, i: int, j: int)
    requires
        0 <= i < j < names.len(),
        names[i] == names[j],
        forall|k: int| i < k < j ==> names[k] != names[i],
    ensures
        occurrences(names, names[j], j) == occurrences(names, names[i], i) + 1,
        trash_name(names, j) == names[j] + "_"@ + decimal(occurrences(names, names[i], i) + 1),
        occurrences(names, names[i], i) == 0 ==> trash_name(names, i) == names[i],
{
    lemma_occurrences(names, names[i], i);
    lemma_none_between(names, names[i], i + 1, j);
}

proof fn lemma_none_between(names: Seq<Text>, n: Text, i: int, j: int)
    requires
        0 <= i <= j <= names.len(),
        forall|k: int| i <= k < j ==> names[k] != n,
    ensures
        occurrences(names, n, j) == occurrences(names, n, i),
    decreases j - i,
{
    if i < j {
        lemma_none_between(names, n, i, j - 1);
    }
}

/// A file whose name no other file in the trash has is shown under its own.
pub proof fn law_trash_keeps_single_names(names: Seq<Text>, i: int)
    requires
        0 <= i < names.len(),
        forall|j: int| 0 <= j < i ==> names[j] != names[i],
    ensures
        trash_name(names, i) == names[i],
{
    lemma_no_occurrence(names, names[i], i);
}

proof fn lemma_no_occurrence(names: Seq<Text>, n: Text, i: int)
    requires
        0 <= i <= names.len(),
        forall|j: int| 0 <= j < i ==> names[j] != n,
    ensures
        occurrences(names, n, i) == 0,
    decreases i,
{
    if i > 0 {
        lemma_no_occurrence(names, n, i - 1);
    }
}

// ---------------------------------------------------------------------------
// Laws of paths
// ---------------------------------------------------------------------------

/// A path lies below a directory where it goes on with a separator; a neighbour whose name starts
/// with the directory's does not.
pub proof fn law_below_goes_by_names(dir: Text, rest: Text)
    ensures
        below(dir, dir),
        below(dir + "/"@ + rest, dir),
        rest.len() > 0 && rest[0] != '/' ==> !below(dir + rest, dir),
        !starts(rest, dir) ==> !below(rest, dir),
{
    reveal_strlit("/");
    let k = dir + "/"@ + rest;
    let n = dir.len() as int;
    assert(k.subrange(0, n + 1) =~= dir + root());
    if rest.len() > 0 && rest[0] != '/' {
        let s = dir + rest;
        assert(s.len() != dir.len());
        if starts(s, dir + root()) {
            assert(s.subrange(0, n + 1)[n] == (dir + root())[n]);
        }
    }
    if below(rest, dir) {
        if rest == dir {
            assert(rest.subrange(0, n) =~= dir);
        } else {
            assert(rest.subrange(0, n) =~= dir) by {
                assert forall|i: int| 0 <= i < n implies rest[i] == dir[i] by {
                    assert(rest.subrange(0, n + 1)[i] == (dir + root())[i]);
                }
            }
        }
    }
}

/// What lies in the trash has a path that starts with that of the trash and a separator; a direct
/// child has one name after it.
pub proof fn law_paths_in_trash(rest: Text, path: Text)
    ensures
        inside_trash("/.Trash/"@ + rest),
        !starts(path, "/.Trash/"@) ==> !inside_trash(path) && !in_trash(path),
        in_trash("/.Trash/"@ + rest) <==> rest.len() > 0 && !rest.contains('/'),
{
    law_prefix_and_rest("/.Trash/"@, rest, path);
}

/// The path of a child is that of its directory, a separator and the name, and the root has no
/// second separator. A path without a separator is a name in the root.
pub proof fn law_child_paths(dir: Text, name: Text)
    ensures
        child_text("/"@, name) == "/"@ + name,
        dir != "/"@ ==> child_text(dir, name) == dir + "/"@ + name,
        !name.contains('/') ==> parent_text(name) == "/"@ && base_text(name) == name,
{
}

} // verus!
