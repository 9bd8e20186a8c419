//! The command line of the Drive mount.

use vstd::prelude::*;

use crate::cli::{cache_base, cache_dir, Text};
use crate::path::{join, joined, lemma_joined_injective};
use crate::text::{cat2, cut, first_at, has_char, law_cut_parts, law_trimming, lemma_cut_at, opt_text};
use crate::text::{split_once, starts, starts_with, trim_end, trimmed};

verus! {

/// Why a target cannot be mounted.
#[derive(Clone, Copy, Debug, PartialEq, Eq, Structural)]
pub enum TargetError {
    /// The account is no email address.
    NoAccount,
}

/// A path on the Drive that starts with `/` and, but for the root, does not end in one.
pub open spec fn normalised(path: Text) -> Text {
    let p = if starts(path, "/"@) {
        path
    } else {
        "/"@ + path
    };
    if trimmed(p, '/').len() == 0 {
        "/"@
    } else {
        trimmed(p, '/')
    }
}

/// Ensures that a path starts with `/` and has no trailing slash.
pub fn normalise_drive_path(path: &str) -> (r: String)
    ensures
        r@ == normalised(path@),
{
    let p = if starts_with(path, "/") {
        path.to_owned()
    } else {
        cat2("/", path)
    };
    let t = trim_end(p.as_str(), '/');
    if t.as_str().is_empty() {
        "/".to_owned()
    } else {
        t
    }
}

/// The account and the path of a target.
pub open spec fn target_parts(target: Text) -> (Text, Text) {
    match cut(target, ':') {
        Some((a, p)) => (a, if p.len() == 0 {
            "/"@
        } else {
            p
        }),
        None => (target, "/"@),
    }
}

/// Reads `ACCOUNT[:DRIVE_PATH]` as an account and a path.
pub fn parse_target(target: &str) -> (r: Result<(String, String), TargetError>)
    ensures
        match r {
            Ok((email, path)) => target_parts(target@).0.contains('@') && email@ == target_parts(
                target@,
            ).0 && path@ == normalised(target_parts(target@).1),
            Err(e) => !target_parts(target@).0.contains('@') && e == TargetError::NoAccount,
        },
{
    let (account, path) = match split_once(target, ':') {
        Some((a, p)) => if p.as_str().is_empty() {
            (a, "/".to_owned())
        } else {
            (a, p)
        },
        None => (target.to_owned(), "/".to_owned()),
    };
    if !has_char(account.as_str(), '@') {
        return Err(TargetError::NoAccount);
    }
    let path = normalise_drive_path(path.as_str());
    Ok((account, path))
}

/// Where the credentials are looked for.
pub fn default_credentials_path(home: Option<&str>) -> (r: String)
    ensures
        r@ == joined(
            match home {
                Some(h) => h@,
                None => "."@,
            },
            ".config/remotefs/gdrive_credentials.json"@,
        ),
{
    join(
        match home {
            Some(h) => h,
            None => ".",
        },
        ".config/remotefs/gdrive_credentials.json",
    )
}

/// The cache directory of an account, so that two mounted accounts share no cached files.
pub open spec fn account_cache(base: Text, email: Text) -> Text {
    joined(joined(base, "remotefs"@), "gdrive_"@ + email)
}

/// The default cache directory of an account.
pub fn default_cache_path(
    email: &str,
    macos: bool,
    home: Option<&str>,
    xdg_cache_home: Option<&str>,
) -> (r: String)
    ensures
        r@ == account_cache(
            cache_base(macos, opt_text(home), opt_text(xdg_cache_home)),
            email@,
        ),
{
    let base = cache_dir(macos, home, xdg_cache_home);
    let dir = join(base.as_str(), "remotefs");
    join(dir.as_str(), cat2("gdrive_", email).as_str())
}

// ---------------------------------------------------------------------------
// Laws
// ---------------------------------------------------------------------------

proof fn lemma_trimmed(s: Text)
    ensures
        trimmed(s, '/').len() <= s.len(),
        trimmed(s, '/').len() > 0 ==> trimmed(s, '/').last() != '/',
        trimmed(s, '/') == s.take(trimmed(s, '/').len() as int),
    decreases s.len(),
{
    if s.len() > 0 && s.last() == '/' {
        lemma_trimmed(s.drop_last());
        let n = trimmed(s, '/').len() as int;
        assert(s.drop_last().take(n) =~= s.take(n));
    } else {
        assert(s.take(s.len() as int) =~= s);
    }
}

/// A normalised path starts with `/`, ends in one only where it is the root, and normalising
/// it again changes nothing.
pub proof fn law_normalised_paths(path: Text)
    ensures
        starts(normalised(path), "/"@),
        normalised(path) == "/"@ || normalised(path).last() != '/',
        normalised(normalised(path)) == normalised(path),
{
    reveal_strlit("/");
    let p = if starts(path, "/"@) {
        path
    } else {
        "/"@ + path
    };
    assert(starts(p, "/"@)) by {
        assert(p.subrange(0, 1) =~= "/"@);
    }
    assert(p[0] == '/') by {
        assert(p.subrange(0, 1)[0] == p[0]);
    }
    lemma_trimmed(p);
    let t = trimmed(p, '/');
    let n = normalised(path);
    if t.len() > 0 {
        assert(t[0] == p[0]);
        assert(n.subrange(0, 1) =~= "/"@);
        assert(trimmed(n, '/') == n);
    } else {
        assert(n.subrange(0, 1) =~= "/"@);
        assert("/"@.drop_last() =~= Seq::<char>::empty());
        assert(trimmed("/"@, '/') == trimmed("/"@.drop_last(), '/'));
        assert(trimmed(Seq::<char>::empty(), '/').len() == 0);
    }
}

/// Two accounts share no cache directory.
pub proof fn law_accounts_have_own_caches(base: Text, a: Text, b: Text)
    requires
        a != b,
    ensures
        account_cache(base, a) != account_cache(base, b),
{
    if account_cache(base, a) == account_cache(base, b) {
        let m = "gdrive_"@ + a;
        let n = "gdrive_"@ + b;
        lemma_joined_injective(joined(base, "remotefs"@), m, n);
        let k = "gdrive_"@.len() as int;
        assert(m.skip(k) =~= a);
        assert(n.skip(k) =~= b);
    }
}

/// A target without a path, or with an empty one, is the root of the Drive.
pub proof fn law_missing_path_is_root(account: Text)
    requires
        !account.contains(':'),
    ensures
        target_parts(account) == (account, "/"@),
        target_parts(account + ":"@) == (account, "/"@),
{
    reveal_strlit(":");
    let t = account + ":"@;
    let n = account.len() as int;
    assert(t[n] == ':');
    assert forall|j: int| 0 <= j < n implies t[j] != ':' by {
        assert(t[j] == account[j]);
    }
    assert(first_at(t, ':', n));
    lemma_cut_at(t, ':', n);
    assert(t.take(n) =~= account);
    assert(t.skip(n + 1).len() == 0);
}

/// The path of a target stays what it is, with a `/` before it where it has none, and without
/// those that it ends in.
pub proof fn law_normalising_keeps_path(path: Text)
    requires
        path.len() > 0,
        path.last() != '/',
    ensures
        path[0] == '/' ==> normalised(path) == path,
        path[0] != '/' ==> normalised(path) == "/"@ + path,
        normalised(path.push('/')) == normalised(path),
        normalised("/"@) == "/"@,
        normalised(Seq::empty()) == "/"@,
{
    reveal_strlit("/");
    let slash = "/"@;
    let none = Seq::<char>::empty();
    law_trimming(none, '/', none);
    assert(none.push('/') =~= slash);
    assert(slash + none =~= slash);
    assert(slash.subrange(0, 1) =~= slash);
    assert(starts(slash, slash));
    assert(!starts(none, slash));
    let full = path.push('/');
    assert(starts(path, slash) == (path[0] == '/')) by {
        assert(path.subrange(0, 1)[0] == path[0]);
        if path[0] == '/' {
            assert(path.subrange(0, 1) =~= slash);
        }
    }
    assert(starts(full, slash) == (path[0] == '/')) by {
        assert(full.subrange(0, 1)[0] == path[0]);
        if path[0] == '/' {
            assert(full.subrange(0, 1) =~= slash);
        }
    }
    law_trimming(path, '/', none);
    law_trimming(slash + path, '/', none);
    assert((slash + path).last() == path.last());
    assert(slash + full =~= (slash + path).push('/'));
}

/// A target is read back: an account and a path that are written as a target are its parts.
pub proof fn law_target_reads_back(account: Text, path: Text)
    requires
        !account.contains(':'),
        path.len() > 0,
    ensures
        target_parts(account + ":"@ + path) == (account, path),
{
    reveal_strlit(":");
    law_cut_parts(account, ':', path);
    assert(account + ":"@ + path =~= account.push(':') + path);
}

/// The cache directory of an account is called after it, below that of all mounts.
pub proof fn law_account_cache_is_named(base: Text, email: Text)
    ensures
        account_cache(base, email) == joined(joined(base, "remotefs"@), "gdrive_"@ + email),
{
}

} // verus!
