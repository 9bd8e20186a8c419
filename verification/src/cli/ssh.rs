//! The command line of the SFTP mount, and what `ssh` knows of a host.

use vstd::prelude::*;

use crate::backend::sftp::SshConfig;
use crate::cli::{cache_base, cache_dir, Text};
use crate::number::{parse_u16, unsigned};
use crate::path::{join, joined, lemma_joined_injective, push_path, pushed};
use crate::text::{after, cat3, cut, first_at, law_cut_parts, law_prefix_and_rest, lemma_cut_at};
use crate::text::{lines, opt_string, opt_text, same, split_lines, split_once, starts, strip_prefix};
use crate::text::views;

verus! {

/// Why a target cannot be mounted.
#[derive(Clone, Copy, Debug, PartialEq, Eq, Structural)]
pub enum TargetError {
    /// The host is empty.
    NoHost,
}

/// The host of a target, with the user that may stand before it, and the path.
pub open spec fn split_path(target: Text) -> (Text, Text) {
    match cut(target, ':') {
        Some((h, p)) => (h, if p.len() == 0 {
            "/"@
        } else {
            p
        }),
        None => (target, "/"@),
    }
}

/// The user and the host.
pub open spec fn split_user(userhost: Text) -> (Option<Text>, Text) {
    match cut(userhost, '@') {
        Some((u, h)) => (Some(u), h),
        None => (None, userhost),
    }
}

/// Reads `[USER@]HOST[:REMOTE_PATH]` as a user, a host alias and a path.
pub fn parse_target(target: &str) -> (r: Result<(Option<String>, String, String), TargetError>)
    ensures
        ({
            let (userhost, path) = split_path(target@);
            let (user, host) = split_user(userhost);
            match r {
                Ok((u, h, p)) => host.len() > 0 && h@ == host && p@ == path && match (u, user) {
                    (Some(a), Some(b)) => a@ == b,
                    (None, None) => true,
                    _ => false,
                },
                Err(e) => host.len() == 0 && e == TargetError::NoHost,
            }
        }),
{
    let (userhost, path) = match split_once(target, ':') {
        Some((h, p)) => if p.as_str().is_empty() {
            (h, "/".to_owned())
        } else {
            (h, p)
        },
        None => (target.to_owned(), "/".to_owned()),
    };
    let (user, alias) = match split_once(userhost.as_str(), '@') {
        Some((u, h)) => (Some(u), h),
        None => (None, userhost),
    };
    if alias.as_str().is_empty() {
        return Err(TargetError::NoHost);
    }
    Ok((user, alias, path))
}

// ---------------------------------------------------------------------------
// What ssh knows of a host
// ---------------------------------------------------------------------------

/// A local path with the home directory for a `~` at its start, where it is known.
pub open spec fn with_home(path: Text, home: Option<Text>) -> Text {
    match (after(path, "~/"@), home) {
        (Some(rest), Some(h)) => pushed(h, rest),
        _ => path,
    }
}

/// Expands `~` at the start of a local path.
pub fn expand_tilde(path: &str, home: Option<&str>) -> (r: String)
    ensures
        r@ == with_home(path@, opt_text(home)),
{
    match (strip_prefix(path, "~/"), home) {
        (Some(rest), Some(h)) => push_path(h, rest.as_str()),
        _ => path.to_owned(),
    }
}

/// What `ssh` knows of a host.
pub struct SshHostParams {
    pub hostname: Option<String>,
    pub port: Option<u16>,
    pub user: Option<String>,
    /// The key files that may be used, in order; each may be missing.
    pub identity_files: Vec<String>,
}

/// What contracts say of what `ssh` knows.
pub struct HostModel {
    pub hostname: Option<Text>,
    pub port: Option<u16>,
    pub user: Option<Text>,
    pub identity_files: Seq<Text>,
}

impl View for SshHostParams {
    type V = HostModel;

    open spec fn view(&self) -> HostModel {
        HostModel {
            hostname: opt_string(self.hostname),
            port: self.port,
            user: opt_string(self.user),
            identity_files: views(self.identity_files@),
        }
    }
}

impl HostModel {
    /// Nothing is known.
    pub open spec fn unknown() -> HostModel {
        HostModel { hostname: None, port: None, user: None, identity_files: Seq::empty() }
    }

    /// What is known after one more line: a keyword, a space, and its value. A later line for
    /// a host name, a port or a user takes the place of an earlier one.
    pub open spec fn with_line(self, line: Text, home: Option<Text>) -> HostModel {
        match cut(line, ' ') {
            Some((key, value)) => if key == "hostname"@ {
                HostModel { hostname: Some(value), ..self }
            } else if key == "port"@ {
                HostModel {
                    port: match unsigned(value, u16::MAX as int) {
                        Some(n) => Some(n as u16),
                        None => None,
                    },
                    ..self
                }
            } else if key == "user"@ {
                HostModel { user: Some(value), ..self }
            } else if key == "identityfile"@ {
                HostModel { identity_files: self.identity_files.push(with_home(value, home)), ..self }
            } else {
                self
            },
            None => self,
        }
    }

    /// What is known after lines.
    pub open spec fn of_lines(l: Seq<Text>, home: Option<Text>) -> HostModel
        decreases l.len(),
    {
        if l.len() == 0 {
            HostModel::unknown()
        } else {
            HostModel::of_lines(l.drop_last(), home).with_line(l.last(), home)
        }
    }
}

impl SshHostParams {
    /// Nothing is known.
    pub fn unknown() -> (p: Self)
        ensures
            p@ == HostModel::unknown(),
    {
        let p = SshHostParams {
            hostname: None,
            port: None,
            user: None,
            identity_files: Vec::new(),
        };
        assert(p@.identity_files =~= Seq::<Text>::empty());
        p
    }

    fn read_line(&mut self, line: &str, home: Option<&str>)
        ensures
            final(self)@ == old(self)@.with_line(line@, opt_text(home)),
    {
        let (key, value) = match split_once(line, ' ') {
            Some(kv) => kv,
            None => {
                return;
            },
        };
        proof {
            reveal_strlit("hostname");
            reveal_strlit("port");
            reveal_strlit("user");
            reveal_strlit("identityfile");
        }
        if same(key.as_str(), "hostname") {
            self.hostname = Some(value);
        } else if same(key.as_str(), "port") {
            self.port = parse_u16(value.as_str());
        } else if same(key.as_str(), "user") {
            self.user = Some(value);
        } else if same(key.as_str(), "identityfile") {
            let ghost had = self.identity_files@;
            let file = expand_tilde(value.as_str(), home);
            self.identity_files.push(file);
            assert(views(self.identity_files@) =~= views(had).push(file@));
        }
    }

    /// Reads what `ssh -G` says of a host.
    pub fn resolve(output: &str, home: Option<&str>) -> (p: Self)
        ensures
            p@ == HostModel::of_lines(lines(output@), opt_text(home)),
    {
        let all = split_lines(output);
        let ghost l = views(all@);
        let mut p = SshHostParams::unknown();
        let mut i: usize = 0;
        assert(l.take(0) =~= Seq::<Text>::empty());
        while i < all.len()
            invariant
                l == views(all@),
                i <= all@.len(),
                p@ == HostModel::of_lines(l.take(i as int), opt_text(home)),
            decreases all@.len() - i,
        {
            proof {
                assert(l.take(i + 1).drop_last() =~= l.take(i as int));
                assert(l.take(i + 1).last() == all@[i as int]@);
            }
            p.read_line(all[i].as_str(), home);
            i = i + 1;
        }
        assert(l.take(i as int) =~= l);
        p
    }
}

/// `i` is the first of the files that exists.
pub open spec fn first_existing(exists: Seq<bool>, i: int) -> bool {
    0 <= i < exists.len() && exists[i] && forall|j: int| 0 <= j < i ==> !exists[j]
}

/// The first key file that exists; `exists` says so of each.
pub fn first_identity(files: &Vec<String>, exists: &Vec<bool>) -> (r: Option<String>)
    requires
        files@.len() == exists@.len(),
    ensures
        match r {
            Some(f) => exists|i: int| #[trigger]
                first_existing(exists@, i) && f@ == files@[i]@,
            None => forall|i: int| 0 <= i < exists@.len() ==> !exists@[i],
        },
{
    let mut i: usize = 0;
    while i < files.len()
        invariant
            i <= files@.len(),
            files@.len() == exists@.len(),
            forall|j: int| 0 <= j < i ==> !exists@[j],
        decreases files@.len() - i,
    {
        if exists[i] {
            assert(first_existing(exists@, i as int));
            return Some(files[i].clone());
        }
        i = i + 1;
    }
    None
}

/// The first that is there.
pub open spec fn first_of<T>(a: Option<T>, b: Option<T>) -> Option<T> {
    if a is Some {
        a
    } else {
        b
    }
}

/// The parameters of a connection. What the command line says goes before what `ssh` knows;
/// the user may also come from the environment, and is `root` in the end. The port is 22 in
/// the end.
pub fn connection(
    alias: String,
    cli_user: Option<String>,
    cli_port: Option<u16>,
    cli_key: Option<String>,
    known: SshHostParams,
    identity: Option<String>,
    env_user: Option<String>,
    env_logname: Option<String>,
) -> (c: SshConfig)
    ensures
        c.host@ == (match opt_string(known.hostname) {
            Some(h) => h,
            None => alias@,
        }),
        c.port == (match first_of(cli_port, known.port) {
            Some(p) => p,
            None => 22,
        }),
        c.user@ == (match first_of(
            first_of(opt_string(cli_user), opt_string(known.user)),
            first_of(opt_string(env_user), opt_string(env_logname)),
        ) {
            Some(u) => u,
            None => "root"@,
        }),
        opt_string(c.key_filename) == first_of(opt_string(cli_key), opt_string(identity)),
        c.password is None,
{
    let host = match known.hostname {
        Some(h) => h,
        None => alias,
    };
    let port: u16 = match (cli_port, known.port) {
        (Some(p), _) => p,
        (None, Some(p)) => p,
        (None, None) => 22,
    };
    let user = match (cli_user, known.user, env_user, env_logname) {
        (Some(u), _, _, _) => u,
        (None, Some(u), _, _) => u,
        (None, None, Some(u), _) => u,
        (None, None, None, Some(u)) => u,
        (None, None, None, None) => "root".to_owned(),
    };
    let key_filename = match (cli_key, identity) {
        (Some(k), _) => Some(k),
        (None, k) => k,
    };
    SshConfig { host, port, user, key_filename, password: None }
}

/// The cache directory of a user on a host.
pub open spec fn host_cache(base: Text, user: Text, host: Text) -> Text {
    pushed(joined(base, "remotefs"@), user + "@"@ + host)
}

/// The default cache directory of a user on a host.
pub fn default_cache_path(
    user: &str,
    host: &str,
    macos: bool,
    home: Option<&str>,
    xdg_cache_home: Option<&str>,
) -> (r: String)
    ensures
        r@ == host_cache(
            cache_base(macos, opt_text(home), opt_text(xdg_cache_home)),
            user@,
            host@,
        ),
{
    let base = cache_dir(macos, home, xdg_cache_home);
    let dir = join(base.as_str(), "remotefs");
    push_path(dir.as_str(), cat3(user, "@", host).as_str())
}

// ---------------------------------------------------------------------------
// Laws
// ---------------------------------------------------------------------------

/// A target is read back: a user, a host and a path that are written as a target, each
/// without the characters that separate them, are the parts of that target.
pub proof fn law_target_reads_back(user: Text, host: Text, path: Text)
    requires
        !user.contains('@'),
        !user.contains(':'),
        !host.contains(':'),
        path.len() > 0,
    ensures
        split_path(user + "@"@ + host + ":"@ + path) == (user + "@"@ + host, path),
        split_user(user + "@"@ + host) == (Some(user), host),
{
    reveal_strlit("@");
    reveal_strlit(":");
    let uh = user + "@"@ + host;
    let t = uh + ":"@ + path;
    let n = uh.len() as int;
    assert(t[n] == ':');
    assert forall|j: int| 0 <= j < n implies t[j] != ':' by {
        assert(t[j] == uh[j]);
        if j < user.len() {
            assert(uh[j] == user[j]);
        } else if j > user.len() {
            assert(uh[j] == host[j - user.len() - 1]);
        }
    }
    assert(first_at(t, ':', n));
    lemma_cut_at(t, ':', n);
    assert(t.take(n) =~= uh);
    assert(t.skip(n + 1) =~= path);
    let m = user.len() as int;
    assert(uh[m] == '@');
    assert forall|j: int| 0 <= j < m implies uh[j] != '@' by {
        assert(uh[j] == user[j]);
    }
    assert(first_at(uh, '@', m));
    lemma_cut_at(uh, '@', m);
    assert(uh.take(m) =~= user);
    assert(uh.skip(m + 1) =~= host);
}

/// A target without a path, or with an empty one, is the root of the host; one without a user
/// has none.
pub proof fn law_missing_parts_of_target(host: Text, userhost: Text)
    requires
        !host.contains('@'),
        !userhost.contains(':'),
    ensures
        split_path(userhost) == (userhost, "/"@),
        split_path(userhost + ":"@) == (userhost, "/"@),
        split_user(host) == (None::<Text>, host),
{
    reveal_strlit(":");
    law_cut_parts(userhost, ':', Seq::empty());
    law_cut_parts(host, '@', Seq::empty());
    assert(userhost + ":"@ =~= userhost.push(':') + Seq::<char>::empty());
}

/// What `ssh` says of a host is read line by line: a host name, a port, a user, which a later line
/// may replace, and key files, which add up in their order, in the home directory where they say
/// so. Other lines change nothing.
pub proof fn law_lines_are_read(l: Seq<Text>, key: Text, value: Text, home: Option<Text>)
    requires
        !key.contains(' '),
    ensures
        ({
            let s = HostModel::of_lines(l, home);
            let t = HostModel::of_lines(l.push(key.push(' ') + value), home);
            &&& HostModel::of_lines(Seq::empty(), home) == HostModel::unknown()
            &&& key == "hostname"@ ==> t == (HostModel { hostname: Some(value), ..s })
            &&& key == "user"@ ==> t == (HostModel { user: Some(value), ..s })
            &&& key == "identityfile"@ ==> t == (HostModel {
                identity_files: s.identity_files.push(with_home(value, home)),
                ..s
            })
            &&& key == "port"@ ==> {
                &&& t == (HostModel { port: t.port, ..s })
                &&& match unsigned(value, u16::MAX as int) {
                    Some(n) => 0 <= n ==> t.port == Some(n as u16),
                    None => t.port is None,
                }
            }
            &&& key != "hostname"@ && key != "user"@ && key != "identityfile"@ && key != "port"@
                ==> t == s
            &&& HostModel::of_lines(l.push(key), home) == s
        }),
{
    law_cut_parts(key, ' ', value);
    reveal_strlit("hostname");
    reveal_strlit("port");
    reveal_strlit("user");
    reveal_strlit("identityfile");
    assert("port"@[0] != "user"@[0]);
    let line = key.push(' ') + value;
    assert(l.push(line).drop_last() =~= l);
    assert(l.push(line).last() == line);
    assert(l.push(key).drop_last() =~= l);
    assert(l.push(key).last() == key);
    assert(HostModel::of_lines(l.push(line), home) == HostModel::of_lines(l, home).with_line(
        line,
        home,
    ));
}

/// A key file below `~` is below the home directory, where that is known; any other stays where
/// it is.
pub proof fn law_home_of_key_files(rest: Text, path: Text, home: Text, any: Option<Text>)
    ensures
        with_home("~/"@ + rest, Some(home)) == pushed(home, rest),
        with_home(path, None) == path,
        !starts(path, "~/"@) ==> with_home(path, any) == path,
{
    law_prefix_and_rest("~/"@, rest, path);
}

/// Of two sources the first goes before the second.
pub proof fn law_first_source_wins(a: Text, b: Option<Text>)
    ensures
        first_of(Some(a), b) == Some(a),
        first_of(None, b) == b,
{
}

/// A user on a host has a cache directory of their own: the name of neither holds a separator, and
/// that of the user no `@`.
pub proof fn law_hosts_have_own_caches(
    base: Text,
    user: Text,
    host: Text,
    other_user: Text,
    other_host: Text,
)
    requires
        user.len() > 0,
        other_user.len() > 0,
        user[0] != '/',
        other_user[0] != '/',
        !user.contains('@'),
        !other_user.contains('@'),
        host_cache(base, user, host) == host_cache(base, other_user, other_host),
    ensures
        user == other_user,
        host == other_host,
{
    reveal_strlit("@");
    let a = user + "@"@ + host;
    let b = other_user + "@"@ + other_host;
    assert(a[0] == user[0]);
    assert(b[0] == other_user[0]);
    lemma_joined_injective(joined(base, "remotefs"@), a, b);
    law_cut_parts(user, '@', host);
    law_cut_parts(other_user, '@', other_host);
    assert(a =~= user.push('@') + host);
    assert(b =~= other_user.push('@') + other_host);
}

/// The cache directory of a user on a host is called after both, below that of all mounts.
pub proof fn law_host_cache_is_named(base: Text, user: Text, host: Text)
    requires
        user.len() > 0,
        user[0] != '/',
    ensures
        host_cache(base, user, host) == joined(joined(base, "remotefs"@), user + "@"@ + host),
{
    assert((user + "@"@ + host)[0] == user[0]);
}

} // verus!
