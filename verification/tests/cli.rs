//! What the command lines mean.

use remotefs::cli::gdrive;
use remotefs::cli::ssh;
use remotefs::cli::{absolute_path, cache_dir, worker_threads};

#[test]
fn drive_target_examples() {
    let whole = gdrive::parse_target("alice@gmail.com");
    assert_eq!(whole.ok(), Some(("alice@gmail.com".to_string(), "/".to_string())));
    let empty = gdrive::parse_target("alice@gmail.com:");
    assert_eq!(empty.ok(), Some(("alice@gmail.com".to_string(), "/".to_string())));
    let folder = gdrive::parse_target("alice@gmail.com:/Projects");
    assert_eq!(folder.ok(), Some(("alice@gmail.com".to_string(), "/Projects".to_string())));
}

#[test]
fn drive_target_needs_an_account() {
    assert_eq!(gdrive::parse_target("alice:/Projects"), Err(gdrive::TargetError::NoAccount));
    assert_eq!(gdrive::parse_target(":a@b"), Err(gdrive::TargetError::NoAccount));
}

#[test]
fn drive_paths_are_normalised() {
    assert_eq!(gdrive::normalise_drive_path("Projects"), "/Projects");
    assert_eq!(gdrive::normalise_drive_path("/Projects///"), "/Projects");
    assert_eq!(gdrive::normalise_drive_path("/"), "/");
    assert_eq!(gdrive::normalise_drive_path("//"), "/");
    assert_eq!(gdrive::normalise_drive_path(""), "/");
    let once = gdrive::normalise_drive_path("a/b/");
    assert_eq!(gdrive::normalise_drive_path(&once), once);
}

#[test]
fn drive_default_paths() {
    assert_eq!(
        gdrive::default_credentials_path(Some("/home/al")),
        "/home/al/.config/remotefs/gdrive_credentials.json"
    );
    assert_eq!(
        gdrive::default_credentials_path(None),
        "./.config/remotefs/gdrive_credentials.json"
    );
    assert_eq!(
        gdrive::default_cache_path("a.b@c.com", false, Some("/home/al"), None),
        "/home/al/.cache/remotefs/gdrive_a.b@c.com"
    );
    assert_eq!(
        gdrive::default_cache_path("a@c", true, Some("/Users/al"), Some("/x")),
        "/Users/al/Library/Caches/remotefs/gdrive_a@c"
    );
}

#[test]
fn accounts_have_their_own_caches() {
    assert_ne!(
        gdrive::default_cache_path("alice@c.com", false, None, None),
        gdrive::default_cache_path("bob@c.com", false, None, None)
    );
    assert_ne!(
        gdrive::default_cache_path("a.b@c.com", false, None, None),
        gdrive::default_cache_path("a_b@c.com", false, None, None)
    );
}

#[test]
fn cache_dirs() {
    assert_eq!(cache_dir(false, Some("/h"), Some("/xdg")), "/xdg");
    assert_eq!(cache_dir(false, Some("/h"), None), "/h/.cache");
    assert_eq!(cache_dir(false, None, None), "/tmp");
    assert_eq!(cache_dir(true, None, Some("/xdg")), "/tmp/Library/Caches");
}

#[test]
fn ssh_target_examples() {
    assert_eq!(
        ssh::parse_target("myserver"),
        Ok((None, "myserver".to_string(), "/".to_string()))
    );
    assert_eq!(
        ssh::parse_target("root@192.168.1.1:/data"),
        Ok((Some("root".to_string()), "192.168.1.1".to_string(), "/data".to_string()))
    );
    assert_eq!(
        ssh::parse_target("gce:~/projects"),
        Ok((None, "gce".to_string(), "~/projects".to_string()))
    );
    assert_eq!(ssh::parse_target("u@h:"), Ok((Some("u".to_string()), "h".to_string(), "/".to_string())));
}

#[test]
fn ssh_target_needs_a_host() {
    assert_eq!(ssh::parse_target("root@:/data"), Err(ssh::TargetError::NoHost));
    assert_eq!(ssh::parse_target(":/data"), Err(ssh::TargetError::NoHost));
}

#[test]
fn ssh_config_output() {
    let out = "user alice\r\nhostname 10.0.0.1\nport 2222\nport x\nidentityfile ~/.ssh/a\n\
               identityfile /keys/b\nother\nhostname 10.0.0.2";
    let p = ssh::SshHostParams::resolve(out, Some("/home/al"));
    assert_eq!(p.user, Some("alice".to_string()));
    assert_eq!(p.hostname, Some("10.0.0.2".to_string()));
    assert_eq!(p.port, None);
    assert_eq!(p.identity_files, vec!["/home/al/.ssh/a".to_string(), "/keys/b".to_string()]);
    let q = ssh::SshHostParams::resolve("port 2222\n", None);
    assert_eq!(q.port, Some(2222));
}

#[test]
fn first_existing_identity() {
    let files = vec!["a".to_string(), "b".to_string(), "c".to_string()];
    assert_eq!(ssh::first_identity(&files, &vec![false, true, true]), Some("b".to_string()));
    assert_eq!(ssh::first_identity(&files, &vec![false, false, false]), None);
}

#[test]
fn tilde() {
    assert_eq!(ssh::expand_tilde("~/x", Some("/h")), "/h/x");
    assert_eq!(ssh::expand_tilde("~//x", Some("/h")), "/x");
    assert_eq!(ssh::expand_tilde("~/x", None), "~/x");
    assert_eq!(ssh::expand_tilde("~", Some("/h")), "~");
}

#[test]
fn connection_prefers_the_command_line() {
    let known = ssh::SshHostParams::resolve("hostname h\nport 23\nuser ssh\n", None);
    let c = ssh::connection(
        "alias".to_string(),
        Some("cli".to_string()),
        Some(24),
        Some("/key".to_string()),
        known,
        Some("/identity".to_string()),
        Some("env".to_string()),
        None,
    );
    assert_eq!(c.host, "h");
    assert_eq!(c.port, 24);
    assert_eq!(c.user, "cli");
    assert_eq!(c.key_filename, Some("/key".to_string()));
    assert_eq!(c.password, None);
}

#[test]
fn connection_defaults() {
    let c = ssh::connection(
        "alias".to_string(),
        None,
        None,
        None,
        ssh::SshHostParams::unknown(),
        Some("/identity".to_string()),
        None,
        None,
    );
    assert_eq!(c.host, "alias");
    assert_eq!(c.port, 22);
    assert_eq!(c.user, "root");
    assert_eq!(c.key_filename, Some("/identity".to_string()));
    assert_eq!(c.address(), "alias:22");
}

#[test]
fn host_cache_path() {
    assert_eq!(
        ssh::default_cache_path("u", "h", false, Some("/home/u"), None),
        "/home/u/.cache/remotefs/u@h"
    );
}

#[test]
fn absolute_paths() {
    assert_eq!(absolute_path("/a/b", Some("/cwd")), "/a/b");
    assert_eq!(absolute_path("b", Some("/cwd")), "/cwd/b");
    assert_eq!(absolute_path("b", None), "./b");
}

#[test]
fn threads() {
    assert_eq!(worker_threads(Some(3), Some(8)), 3);
    assert_eq!(worker_threads(None, Some(8)), 32);
    assert_eq!(worker_threads(None, None), 16);
}
