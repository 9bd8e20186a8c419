//! Paths as text, separated by `/`.

use vstd::prelude::*;

use crate::text::{cat2, cat3, chars_of, find_last, last_at, law_trimming, trim_end, trimmed};

verus! {

/// `name`, which is relative, below the local directory `dir`.
pub open spec fn joined(dir: Seq<char>, name: Seq<char>) -> Seq<char> {
    if dir.len() == 0 || dir.last() == '/' {
        dir + name
    } else {
        dir.push('/') + name
    }
}

/// Two names below a directory are the same path only where they are the same name.
pub proof fn lemma_joined_injective(dir: Seq<char>, a: Seq<char>, b: Seq<char>)
    requires
        joined(dir, a) == joined(dir, b),
    ensures
        a == b,
{
    let d = if dir.len() == 0 || dir.last() == '/' {
        dir
    } else {
        dir.push('/')
    };
    assert((d + a).skip(d.len() as int) =~= a);
    assert((d + b).skip(d.len() as int) =~= b);
}

/// Joins a local directory and a relative name.
pub fn join(dir: &str, name: &str) -> (r: String)
    ensures
        r@ == joined(dir@, name@),
{
    let v = chars_of(dir);
    if v.len() == 0 || v[v.len() - 1] == '/' {
        cat2(dir, name)
    } else {
        let r = cat3(dir, "/", name);
        proof {
            reveal_strlit("/");
        }
        assert(dir@ + "/"@ =~= dir@.push('/'));
        r
    }
}

/// `name` below the local directory `dir`, unless it is absolute.
pub open spec fn pushed(dir: Seq<char>, name: Seq<char>) -> Seq<char> {
    if name.len() > 0 && name[0] == '/' {
        name
    } else {
        joined(dir, name)
    }
}

/// Joins a local directory and a name, which may be absolute.
pub fn push_path(dir: &str, name: &str) -> (r: String)
    ensures
        r@ == pushed(dir@, name@),
{
    let v = chars_of(name);
    if v.len() > 0 && v[0] == '/' {
        name.to_owned()
    } else {
        join(dir, name)
    }
}

/// Whether a file of this name has an extension: a dot that does not start the name. The
/// name `..` is no file.
pub open spec fn extended(name: Seq<char>) -> bool {
    &&& exists|i: int| i > 0 && #[trigger] last_at(name, '.', i)
    &&& name != seq!['.', '.']
}

/// Tells whether a file name has an extension.
pub fn has_extension(name: &str) -> (r: bool)
    ensures
        r == extended(name@),
{
    let v = chars_of(name);
    match find_last(&v, '.') {
        Some(i) => {
            proof {
                if exists|k: int| k > 0 && #[trigger] last_at(name@, '.', k) {
                    let k = choose|k: int| k > 0 && #[trigger] last_at(name@, '.', k);
                    if k < i {
                        assert(name@[i as int] != '.');
                    }
                    if i < k {
                        assert(name@[k] != '.');
                    }
                }
            }
            if i == 1 && v.len() == 2 && v[0] == '.' {
                assert(name@ =~= seq!['.', '.']);
                false
            } else {
                assert(i > 0 ==> name@ != seq!['.', '.']) by {
                    if name@ == seq!['.', '.'] {
                        assert(name@.len() == 2 && name@[0] == '.');
                    }
                }
                i > 0
            }
        },
        None => {
            assert forall|k: int| k > 0 implies !#[trigger] last_at(name@, '.', k) by {
                if last_at(name@, '.', k) {
                    assert(name@[k] == '.');
                }
            }
            false
        },
    }
}

// ---------------------------------------------------------------------------
// Paths of the mounted filesystem
// ---------------------------------------------------------------------------

/// The path of the entry `name` in the directory `parent`.
pub open spec fn child_of(parent: Seq<char>, name: Seq<char>) -> Seq<char> {
    trimmed(parent, '/').push('/') + name
}

/// Builds a child path from a parent directory path and an entry name.
pub fn path_join(parent: &str, name: &str) -> (r: String)
    ensures
        r@ == child_of(parent@, name@),
{
    let r = cat3(trim_end(parent, '/').as_str(), "/", name);
    proof {
        reveal_strlit("/");
    }
    assert(trimmed(parent@, '/') + "/"@ =~= trimmed(parent@, '/').push('/'));
    r
}

/// What `std::path::Path::parent` returns for a path.
pub uninterp spec fn parent_dir(path: Seq<char>) -> Option<Seq<char>>;

/// Whether `name` can be the last component of a path: it is not empty, holds no separator,
/// and is not the current directory.
pub open spec fn is_component(name: Seq<char>) -> bool {
    &&& name.len() > 0
    &&& !name.contains('/')
    &&& name != seq!['.']
}

/// `parent` is `path` without its final component, for the root, for the empty path, for a
/// plain component alone, and for one after the root or after a path that ends in neither `/`
/// nor `.`.
pub open spec fn drops_component(path: Seq<char>, parent: Option<Seq<char>>) -> bool {
    &&& path == seq!['/'] || path.len() == 0 ==> parent is None
    &&& is_component(path) ==> parent == Some(Seq::<char>::empty())
    &&& forall|d: Seq<char>, n: Seq<char>|
        is_component(n) && path == #[trigger] (d.push('/') + n) && (d.len() == 0 || (d.last() != '/'
            && d.last() != '.')) ==> parent == Some(
            if d.len() == 0 {
                seq!['/']
            } else {
                d
            },
        )
}

/// `std::path::Path::parent`: the path without its final component, if there is one; none of
/// the root and of the empty path, and the empty path of a single relative component. Repeated and trailing separators, and components `.`, are
/// no components; how they count is not stated beyond the name.
#[verifier::external_body]
fn std_parent(path: &str) -> (r: Option<String>)
    ensures
        match r {
            Some(p) => parent_dir(path@) == Some(p@) && drops_component(path@, Some(p@)),
            None => parent_dir(path@) is None && drops_component(path@, None),
        },
{
    match std::path::Path::new(path).parent() {
        Some(p) => Some(p.to_string_lossy().into_owned()),
        None => None,
    }
}

/// The path of the directory that holds `path`; that of the root is the root.
pub open spec fn parent_of(path: Seq<char>) -> Seq<char> {
    match parent_dir(path) {
        Some(p) => p,
        None => seq!['/'],
    }
}

/// The path of the directory that holds a path.
pub fn parent_path(path: &str) -> (r: String)
    ensures
        r@ == parent_of(path@),
        drops_component(path@, parent_dir(path@)),
{
    match std_parent(path) {
        Some(p) => p,
        None => {
            let r = "/".to_owned();
            proof {
                reveal_strlit("/");
            }
            assert(r@ =~= seq!['/']);
            r
        },
    }
}

/// The child of a directory whose path does not end in a separator is that path, a
/// separator and the name; the root's child is a separator and the name.
pub proof fn law_child_path(parent: Seq<char>, name: Seq<char>)
    ensures
        parent.len() > 0 && parent.last() != '/' ==> child_of(parent, name) == parent.push('/')
            + name,
        parent == seq!['/'] || parent.len() == 0 ==> child_of(parent, name) == seq!['/'] + name,
{
    if parent == seq!['/'] {
        assert(parent.drop_last() =~= Seq::<char>::empty());
        assert(trimmed(parent, '/') == trimmed(parent.drop_last(), '/'));
        assert(trimmed(Seq::<char>::empty(), '/') =~= Seq::<char>::empty());
    }
    assert(Seq::<char>::empty().push('/') =~= seq!['/']);
    if parent.len() == 0 {
        assert(parent =~= Seq::<char>::empty());
    }
}

/// Two entries of a directory have the same path only where they have the same name.
pub proof fn law_children_differ(parent: Seq<char>, a: Seq<char>, b: Seq<char>)
    requires
        child_of(parent, a) == child_of(parent, b),
    ensures
        a == b,
{
    let d = trimmed(parent, '/').push('/');
    assert((d + a).skip(d.len() as int) =~= a);
    assert((d + b).skip(d.len() as int) =~= b);
}

/// A name below a directory is the directory, one separator and the name: no second separator
/// where the directory ends in one, and none where there is no directory. An absolute name is
/// below no directory.
pub proof fn law_joined_path(dir: Seq<char>, name: Seq<char>)
    ensures
        dir.len() > 0 && dir.last() != '/' ==> joined(dir, name) == dir.push('/') + name,
        joined(dir.push('/'), name) == dir.push('/') + name,
        joined(Seq::empty(), name) == name,
        pushed(dir, seq!['/'] + name) == seq!['/'] + name,
        name.len() == 0 || name[0] != '/' ==> pushed(dir, name) == joined(dir, name),
{
    assert(Seq::<char>::empty() + name =~= name);
    assert((seq!['/'] + name)[0] == '/');
}

/// Separators at the end of a directory's path change nothing about its entries.
pub proof fn law_trailing_separators(parent: Seq<char>, name: Seq<char>)
    ensures
        child_of(parent.push('/'), name) == child_of(parent, name),
{
    law_trimming(parent, '/', Seq::empty());
}

/// The directory that holds an entry is the one that it was named in, and the root holds itself,
/// where the final component is dropped.
pub proof fn law_parent_of_child(dir: Seq<char>, name: Seq<char>)
    requires
        is_component(name),
        dir.len() > 0,
        dir.last() != '/',
        dir.last() != '.',
        drops_component(child_of(dir, name), parent_dir(child_of(dir, name))),
        drops_component(seq!['/'] + name, parent_dir(seq!['/'] + name)),
        drops_component(seq!['/'], parent_dir(seq!['/'])),
    ensures
        parent_of(child_of(dir, name)) == dir,
        parent_of(seq!['/'] + name) == seq!['/'],
        parent_of(seq!['/']) == seq!['/'],
{
    law_child_path(dir, name);
    let top = Seq::<char>::empty();
    assert(top.push('/') + name =~= seq!['/'] + name);
}

/// A name has an extension where a dot stands after its start, but for the name `..`.
pub proof fn law_extensions(stem: Seq<char>, rest: Seq<char>)
    requires
        !rest.contains('.'),
    ensures
        !extended(rest),
        !extended(seq!['.'] + rest),
        stem.len() > 0 && !(stem == seq!['.'] && rest.len() == 0) ==> extended(
            stem.push('.') + rest,
        ),
        !extended(seq!['.', '.']),
{
    assert forall|k: int| k > 0 implies !#[trigger] last_at(rest, '.', k) by {
        if last_at(rest, '.', k) {
            assert(rest[k] == '.');
        }
    }
    let hidden = seq!['.'] + rest;
    assert forall|k: int| k > 0 implies !#[trigger] last_at(hidden, '.', k) by {
        if last_at(hidden, '.', k) {
            assert(rest[k - 1] == '.');
        }
    }
    let s = stem.push('.') + rest;
    let i = stem.len() as int;
    assert forall|j: int| i < j < s.len() implies s[j] != '.' by {
        assert(s[j] == rest[j - i - 1]);
    }
    assert(last_at(s, '.', i));
    if s == seq!['.', '.'] && stem.len() > 0 {
        assert(s.len() == 2);
        assert(stem =~= seq!['.']) by {
            assert(s[0] == stem[0]);
        }
    }
}

} // verus!
