//! The SFTP backend and the mount.

use remotefs::backend::sftp::{
    change_to_stat, expand_remote_path, judge, list_entries, may_download, needs_home, tmp_path,
    Attempt, SshConfig, Verdict,
};
use remotefs::backend::{worker_action, AttrChange, WorkerAction};
use remotefs::mount::{
    ending, fork_role, loop_state, mount_options, parent_exit_code, ForkRole, LoopState,
    MountOption,
};
use remotefs::stat::FileStat;

fn config(key: Option<&str>, password: Option<&str>) -> SshConfig {
    SshConfig {
        host: "h".to_string(),
        port: 2222,
        user: "u".to_string(),
        key_filename: key.map(str::to_string),
        password: password.map(str::to_string),
    }
}

fn stat(size: Option<u64>) -> FileStat {
    FileStat { size, uid: None, gid: None, perm: None, atime: None, mtime: None }
}

#[test]
fn address_of_a_server() {
    assert_eq!(config(None, None).address(), "h:2222");
}

#[test]
fn explicit_key_alone() {
    let v = config(Some("/k"), Some("pw")).authenticate(Some("/home/u"));
    assert_eq!(v.len(), 1);
    assert!(matches!(
        &v[0],
        Attempt::Key { file, passphrase: Some(p) } if file == "/k" && p == "pw"
    ));
}

#[test]
fn password_after_the_agent() {
    let v = config(None, Some("pw")).authenticate(Some("/home/u"));
    assert_eq!(v.len(), 2);
    assert!(matches!(&v[0], Attempt::Agent));
    assert!(matches!(&v[1], Attempt::Password(p) if p == "pw"));
}

#[test]
fn default_keys_in_order() {
    let v = config(None, None).authenticate(Some("/home/u"));
    let mut files: Vec<String> = Vec::new();
    for a in &v {
        if let Attempt::DefaultKey { file } = a {
            files.push(file.clone());
        }
    }
    assert_eq!(v.len(), 4);
    assert_eq!(
        files,
        vec!["/home/u/.ssh/id_ed25519", "/home/u/.ssh/id_ecdsa", "/home/u/.ssh/id_rsa"]
    );
    assert_eq!(config(None, None).authenticate(None).len(), 1);
}

#[test]
fn verdicts() {
    let key = Attempt::Key { file: "k".to_string(), passphrase: None };
    let agent: Attempt<String> = Attempt::Agent;
    let password = Attempt::Password("p".to_string());
    let default_key = Attempt::DefaultKey { file: "k".to_string() };
    assert_eq!(judge(&key, true, false), Verdict::Done);
    assert_eq!(judge(&key, false, false), Verdict::Failed);
    assert_eq!(judge(&password, false, false), Verdict::Failed);
    assert_eq!(judge(&password, true, false), Verdict::Done);
    assert_eq!(judge(&agent, true, true), Verdict::Done);
    assert_eq!(judge(&agent, true, false), Verdict::Next);
    assert_eq!(judge(&default_key, false, false), Verdict::Next);
}

#[test]
fn remote_home() {
    assert!(needs_home("~/x"));
    assert!(!needs_home("/x"));
    assert_eq!(expand_remote_path("~", "/home/u"), "/home/u");
    assert_eq!(expand_remote_path("~/x", "/home/u"), "/home/u/x");
    assert_eq!(expand_remote_path("~bob/x", "/home/u"), "~bob/x");
    assert_eq!(expand_remote_path("/x", "/home/u"), "/x");
}

#[test]
fn download_limits() {
    assert!(may_download(&stat(Some(5)), 5));
    assert!(!may_download(&stat(Some(6)), 5));
    assert!(may_download(&stat(None), 0));
    assert_eq!(tmp_path("/c/ff"), "/c/ff.tmp");
}

#[test]
fn changes_carry_over() {
    let c = AttrChange {
        size: Some(1),
        uid: Some(2),
        gid: Some(3),
        perm: Some(4),
        atime: Some(5),
        mtime: None,
    };
    let s = change_to_stat(&c);
    assert_eq!((s.size, s.uid, s.gid), (Some(1), Some(2), Some(3)));
    assert_eq!((s.perm, s.atime, s.mtime), (Some(4), Some(5), None));
}

#[test]
fn entries_without_a_name_are_left_out() {
    let v = vec![
        (Some("a".to_string()), stat(Some(1))),
        (None, stat(Some(2))),
        (Some("".to_string()), stat(Some(3))),
        (Some("b".to_string()), stat(None)),
    ];
    let r = list_entries(&v);
    let seen: Vec<(&str, u64)> = r.iter().map(|e| (e.0.as_str(), e.1.size)).collect();
    assert_eq!(seen, vec![("a", 1), ("b", 0)]);
}

#[test]
fn options_of_a_mount() {
    let v = mount_options("sftp", Some("data"), false);
    assert_eq!(v.len(), 3);
    assert!(matches!(&v[0], MountOption::FsName(n) if n == "sftp"));
    assert!(matches!(&v[1], MountOption::AutoUnmount));
    assert!(matches!(&v[2], MountOption::DefaultPermissions));
    let v = mount_options("sftp", None, true);
    assert_eq!(v.len(), 7);
    assert!(matches!(&v[6], MountOption::Custom(n) if n == "volname=sftp"));
}

#[test]
fn daemon_decisions() {
    assert_eq!(fork_role(-1), ForkRole::Failed);
    assert_eq!(fork_role(0), ForkRole::Child);
    assert_eq!(fork_role(42), ForkRole::Parent);
    assert_eq!(parent_exit_code(1, 0), 0);
    assert_eq!(parent_exit_code(0, 0), 1);
    assert_eq!(parent_exit_code(1, 1), 1);
    assert_eq!(loop_state(false, false), LoopState::Running);
    assert_eq!(loop_state(true, false), LoopState::Unmounting);
    assert_eq!(loop_state(true, true), LoopState::UnmountedExternally);
    assert_eq!(ending(LoopState::UnmountedExternally, true), (true, true));
    assert_eq!(ending(LoopState::UnmountedExternally, false), (true, false));
    assert_eq!(ending(LoopState::Unmounting, true), (false, true));
    assert_eq!(ending(LoopState::Unmounting, false), (false, false));
}

#[test]
fn threads_connect_once() {
    assert_eq!(worker_action(true, None), WorkerAction::Use);
    assert_eq!(worker_action(true, Some(true)), WorkerAction::Use);
    assert_eq!(worker_action(true, Some(false)), WorkerAction::Use);
    assert_eq!(worker_action(false, None), WorkerAction::Connect);
    assert_eq!(worker_action(false, Some(true)), WorkerAction::Keep);
    assert_eq!(worker_action(false, Some(false)), WorkerAction::Skip);
}
