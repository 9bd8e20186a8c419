//! The SFTP backend.

use vstd::prelude::*;

use crate::backend::AttrChange;
use crate::number::{decimal, to_decimal};
use crate::path::{join, joined};
use crate::stat::{from_ssh2_stat, or_default, FileStat, StatData, REGULAR_MODE};
use crate::text::{after, cat2, cat3, law_prefix_and_rest, opt_string, opt_text, same, starts};
use crate::text::{starts_with, strip_prefix};

verus! {

pub type Text = Seq<char>;

/// Parameters needed to open an SSH connection.
pub struct SshConfig {
    pub host: String,
    pub port: u16,
    pub user: String,
    pub key_filename: Option<String>,
    pub password: Option<String>,
}

/// One way to authenticate.
pub enum Attempt<S> {
    /// With a key file, and the passphrase that it may have. Whatever comes of it, no other
    /// way is tried.
    Key { file: S, passphrase: Option<S> },
    /// With the SSH agent.
    Agent,
    /// With a password. Whatever comes of it, no other way is tried.
    Password(S),
    /// With a key file that may not exist.
    DefaultKey { file: S },
}

impl View for Attempt<String> {
    type V = Attempt<Text>;

    open spec fn view(&self) -> Attempt<Text> {
        match *self {
            Attempt::Key { file, passphrase } => Attempt::Key {
                file: file@,
                passphrase: opt_string(passphrase),
            },
            Attempt::Agent => Attempt::Agent,
            Attempt::Password(p) => Attempt::Password(p@),
            Attempt::DefaultKey { file } => Attempt::DefaultKey { file: file@ },
        }
    }
}

/// What an attempt comes to.
#[derive(Clone, Copy, Debug, PartialEq, Eq, Structural)]
pub enum Verdict {
    /// The session is authenticated as far as the client knows.
    Done,
    /// The connection fails.
    Failed,
    /// The next way is tried.
    Next,
}

/// The view of a list of attempts.
pub open spec fn attempts(v: Seq<Attempt<String>>) -> Seq<Attempt<Text>> {
    v.map_values(|a: Attempt<String>| a@)
}

/// The default key file of a name.
pub open spec fn default_key(home: Text, name: Text) -> Attempt<Text> {
    Attempt::DefaultKey { file: joined(joined(home, ".ssh"@), name) }
}

/// The ways to authenticate, in order: an explicit key alone; else the agent, and then the
/// password, or the default keys in the home directory where there is none.
pub open spec fn plan(
    key: Option<Text>,
    password: Option<Text>,
    home: Option<Text>,
) -> Seq<Attempt<Text>> {
    match (key, password, home) {
        (Some(file), _, _) => seq![Attempt::Key { file, passphrase: password }],
        (None, Some(p), _) => seq![Attempt::Agent, Attempt::Password(p)],
        (None, None, Some(h)) => seq![
            Attempt::Agent,
            default_key(h, "id_ed25519"@),
            default_key(h, "id_ecdsa"@),
            default_key(h, "id_rsa"@),
        ],
        (None, None, None) => seq![Attempt::Agent],
    }
}

fn default_key_in(home: &str, name: &str) -> (a: Attempt<String>)
    ensures
        a@ == default_key(home@, name@),
{
    Attempt::DefaultKey { file: join(join(home, ".ssh").as_str(), name) }
}

fn copy(o: &Option<String>) -> (r: Option<String>)
    ensures
        opt_string(r) == opt_string(*o),
{
    match o {
        Some(s) => Some(s.clone()),
        None => None,
    }
}

impl SshConfig {
    /// The address to connect to.
    pub fn address(&self) -> (r: String)
        ensures
            r@ == self.host@ + ":"@ + decimal(self.port as int),
    {
        cat3(self.host.as_str(), ":", to_decimal(self.port as u64).as_str())
    }

    /// The ways to authenticate, in order; `home` is the user's home directory, where it is
    /// known.
    pub fn authenticate(&self, home: Option<&str>) -> (r: Vec<Attempt<String>>)
        ensures
            attempts(r@) == plan(
                opt_string(self.key_filename),
                opt_string(self.password),
                opt_text(home),
            ),
    {
        let mut r: Vec<Attempt<String>> = Vec::new();
        match &self.key_filename {
            Some(file) => {
                r.push(Attempt::Key { file: file.clone(), passphrase: copy(&self.password) });
            },
            None => {
                r.push(Attempt::Agent);
                match &self.password {
                    Some(p) => {
                        r.push(Attempt::Password(p.clone()));
                    },
                    None => match home {
                        Some(h) => {
                            r.push(default_key_in(h, "id_ed25519"));
                            r.push(default_key_in(h, "id_ecdsa"));
                            r.push(default_key_in(h, "id_rsa"));
                        },
                        None => {},
                    },
                }
            },
        }
        assert(attempts(r@) =~= plan(
            opt_string(self.key_filename),
            opt_string(self.password),
            opt_text(home),
        ));
        r
    }
}

/// What an attempt comes to that was accepted or refused, in a session that is now
/// authenticated or not.
pub open spec fn verdict<S>(a: Attempt<S>, accepted: bool, authenticated: bool) -> Verdict {
    match a {
        Attempt::Key { .. } | Attempt::Password(_) => if accepted {
            Verdict::Done
        } else {
            Verdict::Failed
        },
        _ => if accepted && authenticated {
            Verdict::Done
        } else {
            Verdict::Next
        },
    }
}

/// Judges an attempt.
pub fn judge(a: &Attempt<String>, accepted: bool, authenticated: bool) -> (v: Verdict)
    ensures
        v == verdict(*a, accepted, authenticated),
{
    match a {
        Attempt::Key { .. } => if accepted {
            Verdict::Done
        } else {
            Verdict::Failed
        },
        Attempt::Password(_) => if accepted {
            Verdict::Done
        } else {
            Verdict::Failed
        },
        _ => if accepted && authenticated {
            Verdict::Done
        } else {
            Verdict::Next
        },
    }
}

// ---------------------------------------------------------------------------
// Paths
// ---------------------------------------------------------------------------

/// A remote path with `~` at its start replaced by the login directory.
pub open spec fn expanded(path: Text, home: Text) -> Text {
    if path == "~"@ {
        home
    } else {
        match after(path, "~/"@) {
            Some(rest) => home + "/"@ + rest,
            None => path,
        }
    }
}

/// Tells whether the login directory is needed to expand a remote path.
pub fn needs_home(path: &str) -> (r: bool)
    ensures
        r == starts(path@, "~"@),
{
    starts_with(path, "~")
}

/// Expands a remote path that starts with `~`; `home` is the login directory. SFTP has no
/// shell, so no server does this.
pub fn expand_remote_path(path: &str, home: &str) -> (r: String)
    ensures
        r@ == expanded(path@, home@),
{
    if same(path, "~") {
        return home.to_owned();
    }
    match strip_prefix(path, "~/") {
        Some(rest) => cat3(home, "/", rest.as_str()),
        None => path.to_owned(),
    }
}

/// The file that a download goes to before it takes its place.
pub fn tmp_path(dest: &str) -> (r: String)
    ensures
        r@ == dest@ + ".tmp"@,
{
    cat2(dest, ".tmp")
}

// ---------------------------------------------------------------------------
// Attributes and listings
// ---------------------------------------------------------------------------

/// The attributes to send for a change.
pub fn change_to_stat(c: &AttrChange) -> (s: FileStat)
    ensures
        s == (FileStat {
            size: c.size,
            uid: c.uid,
            gid: c.gid,
            perm: c.perm,
            atime: c.atime,
            mtime: c.mtime,
        }),
{
    FileStat {
        size: c.size,
        uid: c.uid,
        gid: c.gid,
        perm: c.perm,
        atime: c.atime,
        mtime: c.mtime,
    }
}

/// Tells whether a file may be downloaded: it is not larger than the limit. A file whose size
/// the server does not tell counts as empty.
pub fn may_download(stat: &FileStat, max_bytes: u64) -> (r: bool)
    ensures
        r == (or_default(stat.size, 0) <= max_bytes),
{
    stat.size.unwrap_or(0) <= max_bytes
}

/// The attributes that a server reported, without gaps.
pub open spec fn filled(s: FileStat) -> StatData {
    StatData {
        size: or_default(s.size, 0),
        uid: or_default(s.uid, 0),
        gid: or_default(s.gid, 0),
        perm: or_default(s.perm, REGULAR_MODE),
        atime: or_default(s.atime, 0),
        mtime: or_default(s.mtime, 0),
    }
}

/// The entries of a listing that have a name, with their attributes.
pub open spec fn named_entries(v: Seq<(Option<String>, FileStat)>) -> Seq<(Text, StatData)>
    decreases v.len(),
{
    if v.len() == 0 {
        Seq::empty()
    } else {
        let before = named_entries(v.drop_last());
        match v.last().0 {
            Some(n) => if n@.len() > 0 {
                before.push((n@, filled(v.last().1)))
            } else {
                before
            },
            None => before,
        }
    }
}

/// The view of a listing.
pub open spec fn entry_views(v: Seq<(String, StatData)>) -> Seq<(Text, StatData)> {
    v.map_values(|e: (String, StatData)| (e.0@, e.1))
}

/// Keeps the entries of a listing that have a name.
pub fn list_entries(v: &Vec<(Option<String>, FileStat)>) -> (r: Vec<(String, StatData)>)
    ensures
        entry_views(r@) == named_entries(v@),
{
    let mut r: Vec<(String, StatData)> = Vec::new();
    let mut i: usize = 0;
    proof {
        assert(v@.take(0) =~= Seq::<(Option<String>, FileStat)>::empty());
        assert(entry_views(r@) =~= Seq::<(Text, StatData)>::empty());
    }
    while i < v.len()
        invariant
            i <= v@.len(),
            entry_views(r@) == named_entries(v@.take(i as int)),
        decreases v@.len() - i,
    {
        let ghost had = r@;
        let (name, stat) = &v[i];
        assert(v@.take(i + 1).drop_last() =~= v@.take(i as int));
        match name {
            Some(n) => {
                if !n.as_str().is_empty() {
                    let s = from_ssh2_stat(stat);
                    r.push((n.clone(), s));
                    assert(entry_views(r@) =~= entry_views(had).push((n@, s)));
                }
            },
            None => {},
        }
        i = i + 1;
    }
    assert(v@.take(i as int) =~= v@);
    r
}

// ---------------------------------------------------------------------------
// Laws
// ---------------------------------------------------------------------------

/// An explicit key is the only way that is tried, and a password keeps default keys out; the
/// agent comes before both.
pub proof fn law_explicit_ways_come_first(
    key: Option<Text>,
    password: Option<Text>,
    home: Option<Text>,
    i: int,
)
    requires
        0 <= i < plan(key, password, home).len(),
    ensures
        key is Some ==> plan(key, password, home).len() == 1 && plan(key, password, home)[0] is Key,
        key is None ==> plan(key, password, home)[0] is Agent,
        password is Some ==> !(plan(key, password, home)[i] is DefaultKey),
{
}

/// A remote path that does not start with `~` stays as it is.
pub proof fn law_plain_paths_stay(path: Text, home: Text)
    requires
        !starts(path, "~"@),
    ensures
        expanded(path, home) == path,
{
    reveal_strlit("~");
    reveal_strlit("~/");
    if path == "~"@ {
        assert(path.subrange(0, 1) =~= "~"@);
    }
    if starts(path, "~/"@) {
        assert(path[0] == "~/"@[0]);
        assert(path.subrange(0, 1) =~= "~"@);
    }
}

/// The ways to authenticate are those that the user gave: a key with the password as its
/// passphrase; without a key the agent, and then the password; with neither the agent, and then
/// the three default keys in the home directory, in order, where that is known.
pub proof fn law_ways_to_authenticate(
    file: Text,
    given: Text,
    password: Option<Text>,
    home: Text,
    any_home: Option<Text>,
)
    ensures
        plan(Some(file), password, any_home) == seq![Attempt::Key { file, passphrase: password }],
        plan(None, Some(given), any_home) == seq![Attempt::Agent, Attempt::Password(given)],
        plan(None, None, None) == seq![Attempt::<Text>::Agent],
        ({
            let all = plan(None, None, Some(home));
            let dir = joined(home, ".ssh"@);
            &&& all.len() == 4
            &&& all[0] == Attempt::<Text>::Agent
            &&& all[1] == Attempt::DefaultKey { file: joined(dir, "id_ed25519"@) }
            &&& all[2] == Attempt::DefaultKey { file: joined(dir, "id_ecdsa"@) }
            &&& all[3] == Attempt::DefaultKey { file: joined(dir, "id_rsa"@) }
        }),
{
}

/// A key or a password that the user gave decides: accepted, the session is good, refused, the
/// connection fails. The agent and the default keys decide only where they succeed, and else the
/// next way is tried.
pub proof fn law_given_ways_decide(a: Attempt<Text>, accepted: bool, authenticated: bool)
    ensures
        a is Key || a is Password ==> verdict(a, true, authenticated) == Verdict::Done && verdict(
            a,
            false,
            authenticated,
        ) == Verdict::Failed,
        a is Agent || a is DefaultKey ==> verdict(a, true, true) == Verdict::Done && verdict(
            a,
            false,
            authenticated,
        ) == Verdict::Next && verdict(a, accepted, false) == Verdict::Next,
{
}

/// A `~` alone, or before a separator, at the start of a remote path stands for the login
/// directory; what follows stays.
pub proof fn law_remote_home_is_expanded(rest: Text, home: Text)
    ensures
        expanded("~"@, home) == home,
        expanded("~/"@ + rest, home) == home + "/"@ + rest,
        rest.len() > 0 && rest[0] != '/' ==> expanded("~"@ + rest, home) == "~"@ + rest,
{
    reveal_strlit("~");
    reveal_strlit("~/");
    law_prefix_and_rest("~/"@, rest, "~"@ + rest);
    assert(("~/"@ + rest)[1] == '/');
    assert("~/"@ + rest != "~"@) by {
        assert(("~/"@ + rest).len() > 1);
    }
    if rest.len() > 0 && rest[0] != '/' {
        let s = "~"@ + rest;
        assert(s.len() > 1);
        assert(s[1] == rest[0]);
        if starts(s, "~/"@) {
            assert(s.subrange(0, 2)[1] == "~/"@[1]);
        }
    }
}

/// A listing keeps the entries that have a name, in their order and with their attributes, and
/// leaves out the others.
pub proof fn law_named_entries_are_kept(
    v: Seq<(Option<String>, FileStat)>,
    name: String,
    stat: FileStat,
)
    ensures
        named_entries(Seq::empty()) == Seq::<(Text, StatData)>::empty(),
        name@.len() > 0 ==> named_entries(v.push((Some(name), stat))) == named_entries(v).push(
            (name@, filled(stat)),
        ),
        name@.len() == 0 ==> named_entries(v.push((Some(name), stat))) == named_entries(v),
        named_entries(v.push((None, stat))) == named_entries(v),
{
    assert(v.push((Some(name), stat)).drop_last() =~= v);
    assert(v.push((None, stat)).drop_last() =~= v);
}

/// What a server tells of a file is taken as it is; what it does not tell is 0, and the mode that
/// of a regular file.
pub proof fn law_told_attributes_are_taken(s: FileStat)
    ensures
        ({
            let f = filled(s);
            &&& s.size matches Some(n) ==> f.size == n
            &&& s.uid matches Some(n) ==> f.uid == n
            &&& s.gid matches Some(n) ==> f.gid == n
            &&& s.perm matches Some(n) ==> f.perm == n
            &&& s.atime matches Some(n) ==> f.atime == n
            &&& s.mtime matches Some(n) ==> f.mtime == n
            &&& s.size is None ==> f.size == 0
            &&& s.uid is None ==> f.uid == 0
            &&& s.gid is None ==> f.gid == 0
            &&& s.perm is None ==> f.perm == 0o100644
            &&& s.atime is None ==> f.atime == 0
            &&& s.mtime is None ==> f.mtime == 0
        }),
{
}

} // verus!
