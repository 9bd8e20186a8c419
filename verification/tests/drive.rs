//! Google Drive: requests, timestamps, paths and jobs.

use remotefs::backend::gdrive::client::{
    about_quota_request, about_user_request, account_refusal, children_of, create_file_request,
    create_folder_request, delete_permanent_request, download_request, drive_file_to_stat,
    get_file_request, in_trash_query, join_parents, list_request, rename_request, resolve_root_id,
    restore_file_request, storage_quota, trash_file_request, upload_request, Body, DriveFile,
    HttpRequest, Method, Pages, RootId,
};
use remotefs::backend::gdrive::drive::{can_move, DriveState, QuotaCache};
use remotefs::backend::gdrive::model::{
    Answer, Call, DriveAnswer, DriveCall, DriveJob, DriveNext, DriveOutcome, DriveStep,
    DriveWaiting, Job, Outcome,
};
use remotefs::backend::gdrive::paths::{
    base_name, child_path, is_in_trash, is_inside_trash, name_trash, parent_path, PathCache,
};
use remotefs::backend::gdrive::time::{civil_to_days, is_countable_instant, parse_rfc3339};
use remotefs::stat::StatData;

const FIELDS: &str = "id,name,mimeType,size,modifiedTime,parents";

fn file(id: &str, name: &str) -> DriveFile {
    DriveFile {
        id: id.to_string(),
        name: name.to_string(),
        mime_type: "text/plain".to_string(),
        size: Some("5".to_string()),
        modified_time: Some("1970-01-02T00:00:01.5Z".to_string()),
        parents: None,
    }
}

fn folder(id: &str, name: &str) -> DriveFile {
    DriveFile {
        mime_type: "application/vnd.google-apps.folder".to_string(),
        size: None,
        modified_time: None,
        ..file(id, name)
    }
}

fn q(r: &HttpRequest) -> Vec<(&str, &str)> {
    r.query.iter().map(|(a, b)| (a.as_str(), b.as_str())).collect()
}

fn json(r: &HttpRequest) -> &str {
    match &r.body {
        Body::Json(s) => s,
        _ => panic!("no JSON"),
    }
}

// --- timestamps ---

#[test]
fn days_of_the_calendar() {
    assert_eq!(civil_to_days(1970, 1, 1), Some(0));
    assert_eq!(civil_to_days(2000, 3, 1), Some(11017));
    assert_eq!(civil_to_days(2024, 2, 29), Some(19782));
    assert_eq!(civil_to_days(2023, 2, 29), civil_to_days(2023, 3, 1));
    assert_eq!(civil_to_days(1969, 12, 31), None);
    assert_eq!(civil_to_days(2000, 0, 1), None);
    assert_eq!(civil_to_days(2000, 13, 1), None);
    assert_eq!(civil_to_days(2000, 1, 32), None);
    assert_eq!(civil_to_days(2000, 1, 0), None);
}

#[test]
fn timestamps() {
    assert_eq!(parse_rfc3339("2024-02-29T12:34:56Z"), Some(1709210096));
    assert_eq!(parse_rfc3339("2024-02-29T12:34:56.789Z"), Some(1709210096));
    assert_eq!(parse_rfc3339("2024-02-29T12:34:56+00:00"), Some(1709210096));
    assert_eq!(parse_rfc3339("2000-03-01T00:00Z"), Some(951868800));
    assert_eq!(parse_rfc3339("2000-03-01"), None);
    assert_eq!(parse_rfc3339("2000-03T00:00:00"), None);
    assert_eq!(parse_rfc3339("2000-03-01T00"), None);
    assert_eq!(parse_rfc3339("2000-03-01T00:00:xx"), None);
    assert_eq!(parse_rfc3339("1969-03-01T00:00:00Z"), None);
    assert_eq!(parse_rfc3339(""), None);
}

#[test]
fn instants_that_cannot_be_counted() {
    assert!(is_countable_instant("2024-02-29T12:34:56Z"));
    assert!(is_countable_instant("nonsense"));
    assert!(is_countable_instant("1970-01-01T00:00:18446744073709551615Z"));
    assert!(!is_countable_instant("1970-01-02T00:00:18446744073709551615Z"));
    assert!(!is_countable_instant("9223372036854775807-01-01T00:00:00Z"));
    assert!(!is_countable_instant("1970-01-01T18446744073709551615:00:00Z"));
}

// --- files ---

#[test]
fn file_attributes() {
    let f = file("1", "a");
    assert!(!f.is_dir());
    assert_eq!((f.size_bytes(), f.mtime_secs()), (5, 86401));
    assert!(f.has_countable_mtime());
    assert_eq!(
        drive_file_to_stat(&f, 7, 8),
        StatData { size: 5, uid: 7, gid: 8, perm: 0o100644, atime: 86401, mtime: 86401 }
    );
    let d = folder("2", "d");
    assert!(d.is_dir());
    assert_eq!((d.size_bytes(), d.mtime_secs()), (0, 0));
    assert_eq!(drive_file_to_stat(&d, 7, 8).perm, 0o040755);
    let odd = DriveFile {
        size: Some("x".to_string()),
        modified_time: Some("y".to_string()),
        ..file("3", "o")
    };
    assert_eq!((odd.size_bytes(), odd.mtime_secs()), (0, 0));
    let late = DriveFile {
        modified_time: Some("9999999999999-01-01T00:00:00Z".to_string()),
        ..file("4", "l")
    };
    assert!(!late.has_countable_mtime());
}

// --- requests ---

#[test]
fn plain_requests() {
    let r = about_user_request();
    assert_eq!(r.url, "https://www.googleapis.com/drive/v3/about");
    assert_eq!(q(&r), vec![("fields", "user/emailAddress")]);
    assert_eq!(q(&about_quota_request()), vec![("fields", "storageQuota")]);
    let r = get_file_request("ID");
    assert_eq!(r.method, Method::Get);
    assert_eq!(r.url, "https://www.googleapis.com/drive/v3/files/ID");
    assert_eq!(q(&r), vec![("fields", FIELDS), ("supportsAllDrives", "true")]);
    let r = download_request("ID");
    assert_eq!(q(&r), vec![("alt", "media"), ("supportsAllDrives", "true")]);
    let r = upload_request("ID");
    assert_eq!(r.method, Method::Patch);
    assert_eq!(r.url, "https://www.googleapis.com/upload/drive/v3/files/ID");
    assert!(matches!(r.body, Body::Content));
    let r = delete_permanent_request("ID");
    assert_eq!(r.method, Method::Delete);
    assert_eq!(q(&r), vec![("supportsAllDrives", "true")]);
}

#[test]
fn listing_requests() {
    assert_eq!(children_of("F"), "'F' in parents and trashed = false");
    assert_eq!(in_trash_query(), "trashed = true");
    let r = list_request("Q", Some("D"), Some("P"));
    assert_eq!(r.url, "https://www.googleapis.com/drive/v3/files");
    assert_eq!(
        q(&r),
        vec![
            ("q", "Q"),
            ("fields", "nextPageToken,files(id,name,mimeType,size,modifiedTime,parents)"),
            ("pageSize", "1000"),
            ("supportsAllDrives", "true"),
            ("includeItemsFromAllDrives", "true"),
            ("corpora", "drive"),
            ("driveId", "D"),
            ("pageToken", "P"),
        ]
    );
    assert_eq!(q(&list_request("Q", None, None)).len(), 5);
}

#[test]
fn pages_add_up() {
    let (mut p, first) = Pages::start("Q".to_string(), None);
    assert_eq!(q(&first).len(), 5);
    let next = p.take(vec![file("1", "a")], Some("T"));
    match next {
        Some(r) => assert!(q(&r).contains(&("pageToken", "T"))),
        None => panic!("no request"),
    }
    assert!(p.take(vec![file("2", "b"), file("3", "c")], None).is_none());
    let ids: Vec<&str> = p.files.iter().map(|f| f.id.as_str()).collect();
    assert_eq!(ids, vec!["1", "2", "3"]);
}

#[test]
fn creation_requests() {
    let r = create_file_request("P", "a\"b");
    assert_eq!(r.method, Method::Post);
    assert_eq!(r.url, "https://www.googleapis.com/upload/drive/v3/files");
    assert_eq!(
        q(&r),
        vec![("uploadType", "multipart"), ("fields", FIELDS), ("supportsAllDrives", "true")]
    );
    match &r.body {
        Body::Multipart { boundary, text } => {
            assert_eq!(boundary, "---drive_boundary_remotefs");
            assert_eq!(
                text,
                "-----drive_boundary_remotefs\r\nContent-Type: application/json; charset=UTF-8\r\n\
                 \r\n{\"name\":\"a\\\"b\",\"parents\":[\"P\"]}\r\n\
                 -----drive_boundary_remotefs\r\nContent-Type: application/octet-stream\r\n\
                 \r\n\r\n-----drive_boundary_remotefs--"
            );
        }
        _ => panic!("no multipart"),
    }
    let r = create_folder_request("P", "n");
    assert_eq!(
        json(&r),
        "{\"mimeType\":\"application/vnd.google-apps.folder\",\"name\":\"n\",\"parents\":[\"P\"]}"
    );
}

#[test]
fn change_requests() {
    let r = trash_file_request("ID");
    assert_eq!(json(&r), "{\"trashed\":true}");
    assert_eq!(q(&r), vec![("supportsAllDrives", "true"), ("fields", "id")]);
    let r = restore_file_request("ID", "A,B", "P", "n");
    assert_eq!(json(&r), "{\"name\":\"n\",\"trashed\":false}");
    assert_eq!(
        q(&r),
        vec![
            ("supportsAllDrives", "true"),
            ("addParents", "P"),
            ("fields", "id"),
            ("removeParents", "A,B"),
        ]
    );
    assert_eq!(q(&restore_file_request("ID", "", "P", "n")).len(), 3);
    let r = rename_request("ID", "n\n", "O", "N");
    assert_eq!(json(&r), "{\"name\":\"n\\n\"}");
    assert_eq!(
        q(&r),
        vec![
            ("supportsAllDrives", "true"),
            ("addParents", "N"),
            ("removeParents", "O"),
            ("fields", "id"),
        ]
    );
    assert!(matches!(rename_request("ID", "", "O", "N").body, Body::Empty));
}

#[test]
fn names_are_escaped() {
    let r = rename_request("ID", "\"\\/\u{8}\u{c}\t\r\u{1}\u{1f}\u{7f}\u{e9}", "O", "N");
    assert_eq!(
        json(&r),
        "{\"name\":\"\\\"\\\\/\\b\\f\\t\\r\\u0001\\u001f\u{7f}\u{e9}\"}"
    );
}

#[test]
fn parents_are_joined() {
    let mut f = file("1", "a");
    assert_eq!(join_parents(&f), "");
    f.parents = Some(vec![]);
    assert_eq!(join_parents(&f), "");
    f.parents = Some(vec!["A".to_string(), "B".to_string(), "C".to_string()]);
    assert_eq!(join_parents(&f), "A,B,C");
}

#[test]
fn quotas() {
    assert_eq!(storage_quota(Some("100"), "30"), (100, 70));
    assert_eq!(storage_quota(Some("10"), "30"), (10, 0));
    assert_eq!(storage_quota(None, "30"), (0, 0));
    assert_eq!(storage_quota(Some("x"), "y"), (0, 0));
    let mut c = QuotaCache { quota: None };
    assert_eq!(c.get(0), None);
    assert_eq!(c.put(Some((2, 1))), Some((2, 1)));
    assert_eq!(c.get(59), Some((2, 1)));
    assert_eq!(c.get(60), None);
    assert_eq!(c.put(None), None);
    assert_eq!(c.get(0), Some((2, 1)));
}

// --- paths ---

#[test]
fn parts_of_paths() {
    assert_eq!(parent_path("/a/b"), "/a");
    assert_eq!(parent_path("/a"), "/");
    assert_eq!(parent_path("/"), "/");
    assert_eq!(parent_path("a"), "/");
    assert_eq!(base_name("/a/b"), "b");
    assert_eq!(base_name("a"), "a");
    assert_eq!(base_name("/a/"), "");
    assert_eq!(child_path("/", "a"), "/a");
    assert_eq!(child_path("/d", "a"), "/d/a");
}

#[test]
fn direct_children_of_the_trash() {
    assert!(is_in_trash("/.Trash/a"));
    assert!(!is_in_trash("/.Trash"));
    assert!(!is_in_trash("/.Trash/"));
    assert!(!is_in_trash("/.Trash/a/b"));
    assert!(!is_in_trash("/.Trashcan"));
    assert!(!is_in_trash("/a/.Trash/b"));
    assert!(is_inside_trash("/.Trash/a"));
    assert!(is_inside_trash("/.Trash/a/b"));
    assert!(!is_inside_trash("/.Trash"));
    assert!(!is_inside_trash("/.Trashcan/a"));
    assert!(!is_inside_trash("/a/.Trash/b"));
}

#[test]
fn path_cache_moves_and_forgets() {
    let mut c = PathCache::new("R".to_string());
    assert_eq!(c.get("/"), Some("R".to_string()));
    c.insert("/a".to_string(), "A".to_string());
    c.insert("/a/x".to_string(), "X".to_string());
    c.insert("/ab".to_string(), "AB".to_string());
    c.insert("/bc".to_string(), "BC".to_string());
    c.rename_prefix("/a", "/b");
    assert_eq!(c.get("/bc"), Some("BC".to_string()));
    assert_eq!(c.get("/b"), Some("A".to_string()));
    assert_eq!(c.get("/b/x"), Some("X".to_string()));
    assert_eq!(c.get("/a"), None);
    assert_eq!(c.get("/a/x"), None);
    assert_eq!(c.get("/ab"), Some("AB".to_string()));
    c.remove_prefix("/b");
    assert_eq!(c.get("/b/x"), None);
    assert_eq!(c.get("/ab"), Some("AB".to_string()));
    c.insert("/m".to_string(), "M".to_string());
    c.insert("/m/n".to_string(), "N".to_string());
    c.rename_prefix("/m", "/m/n");
    assert_eq!(c.get("/m"), None);
    assert_eq!(c.get("/m/n"), Some("M".to_string()));
    assert_eq!(c.get("/m/n/n"), Some("N".to_string()));
}

#[test]
fn names_in_the_trash() {
    let files = vec![file("1", "a"), file("2", "b"), file("3", "a"), file("4", "a")];
    assert_eq!(name_trash(&files), vec!["a", "b", "a_1", "a_2"]);
}

#[test]
fn roots_do_not_move() {
    assert!(can_move("/a"));
    assert!(!can_move("/"));
    assert!(!can_move(""));
}

// --- jobs ---

fn drive() -> DriveState {
    DriveState::new("R".to_string(), 7, 8)
}

fn ask(step: DriveNext) -> (DriveCall, DriveWaiting) {
    match step {
        DriveStep::Ask(c, w) => (c, w),
        _ => panic!("no call"),
    }
}

fn done(step: DriveNext) -> DriveOutcome {
    match step {
        DriveStep::Reply(o) => o,
        _ => panic!("no outcome"),
    }
}

fn go(d: &mut DriveState, w: DriveWaiting, a: DriveAnswer) -> (DriveCall, DriveWaiting) {
    let step = d.resume(w, a);
    ask(step)
}

fn end(d: &mut DriveState, w: DriveWaiting, a: DriveAnswer) -> DriveOutcome {
    let step = d.resume(w, a);
    done(step)
}

fn stat(path: &str) -> DriveJob {
    Job::Stat { path: path.to_string() }
}

fn files(v: Vec<DriveFile>) -> DriveAnswer {
    Answer::Files(Some(v))
}

#[test]
fn root_and_trash_are_directories() {
    let mut d = drive();
    for p in ["/", "/.Trash"] {
        match done(d.start(stat(p))) {
            Outcome::Stat(Some(s)) => assert_eq!((s.perm, s.uid, s.gid), (0o040755, 7, 8)),
            _ => panic!("no attributes"),
        }
    }
}

#[test]
fn paths_are_resolved_downwards() {
    let mut d = drive();
    let (c, w) = ask(d.start(stat("/d/x")));
    assert!(matches!(c, Call::ListChildren { folder } if folder == "R"));
    let (c, w) = go(&mut d, w, files(vec![file("F", "f"), folder("D", "d")]));
    assert!(matches!(c, Call::ListChildren { folder } if folder == "D"));
    let (c, w) = go(&mut d, w, files(vec![file("X", "x")]));
    assert!(matches!(c, Call::GetFile { id } if id == "X"));
    assert!(matches!(end(&mut d, w, Answer::File(Some(file("X", "x")))), Outcome::Stat(Some(s)) if s.size == 5));
    let (c, _) = ask(d.start(stat("/d/x")));
    assert!(matches!(c, Call::GetFile { id } if id == "X"));
    let (c, _) = ask(d.start(stat("/f")));
    assert!(matches!(c, Call::GetFile { id } if id == "F"));
}

#[test]
fn missing_paths() {
    let mut d = drive();
    let (_, w) = ask(d.start(stat("/d/x")));
    assert!(matches!(end(&mut d, w, files(vec![])), Outcome::Stat(None)));
    let (_, w) = ask(d.start(stat("/d/x")));
    assert!(matches!(end(&mut d, w, Answer::Files(None)), Outcome::Stat(None)));
    let (_, w) = ask(d.start(Job::ReadDir { path: "/n".to_string() }));
    assert!(matches!(end(&mut d, w, files(vec![])), Outcome::Failed));
    let (_, w) = ask(d.start(Job::DownloadTo { path: "/n".to_string(), max_bytes: 9 }));
    assert!(matches!(end(&mut d, w, files(vec![])), Outcome::Download(None)));
}

#[test]
fn root_listing_holds_the_trash() {
    let mut d = drive();
    let (c, w) = ask(d.start(Job::ReadDir { path: "/".to_string() }));
    assert!(matches!(c, Call::ListChildren { folder } if folder == "R"));
    match end(&mut d, w, files(vec![file("A", "a")])) {
        Outcome::Listing(l) => {
            let n: Vec<&str> = l.iter().map(|e| e.0.as_str()).collect();
            assert_eq!(n, vec!["a", ".Trash"]);
        }
        _ => panic!("no listing"),
    }
    let (c, _) = ask(d.start(stat("/a")));
    assert!(matches!(c, Call::GetFile { id } if id == "A"));
}

#[test]
fn trash_listing() {
    let mut d = drive();
    let (c, w) = ask(d.start(Job::ReadDir { path: "/.Trash".to_string() }));
    assert!(matches!(c, Call::ListTrashed));
    match end(&mut d, w, files(vec![file("1", "a"), file("2", "a")])) {
        Outcome::Listing(l) => {
            let n: Vec<&str> = l.iter().map(|e| e.0.as_str()).collect();
            assert_eq!(n, vec!["a", "a_1"]);
        }
        _ => panic!("no listing"),
    }
    let (c, _) = ask(d.start(stat("/.Trash/a_1")));
    assert!(matches!(c, Call::GetFile { id } if id == "2"));
    let (c, _) = ask(d.start(stat("/.Trash/b")));
    assert!(matches!(c, Call::ListTrashed));
}

#[test]
fn downloads_have_a_limit() {
    let mut d = drive();
    d.paths.insert("/a".to_string(), "A".to_string());
    for (max, ok) in [(5, true), (4, false)] {
        let (_, w) = ask(d.start(Job::DownloadTo { path: "/a".to_string(), max_bytes: max }));
        match end(&mut d, w, Answer::File(Some(file("A", "a")))) {
            Outcome::Download(id) => assert_eq!(id.is_some(), ok),
            _ => panic!("no plan"),
        }
    }
}

#[test]
fn reads_are_slices() {
    let mut d = drive();
    d.paths.insert("/a".to_string(), "A".to_string());
    for (offset, size, want) in [
        (0, 3, vec![1, 2, 3]),
        (3, 10, vec![4, 5]),
        (5, 1, vec![]),
        (u64::MAX, u32::MAX, vec![]),
    ] {
        let (c, w) = ask(d.start(Job::ReadAt { path: "/a".to_string(), offset, size }));
        assert!(matches!(c, Call::Download { id } if id == "A"));
        match end(&mut d, w, Answer::Bytes(Some(vec![1, 2, 3, 4, 5]))) {
            Outcome::Bytes(b) => assert_eq!(b, want),
            _ => panic!("no bytes"),
        }
    }
}

#[test]
fn native_files_read_empty() {
    let mut d = drive();
    d.paths.insert("/doc".to_string(), "G".to_string());
    for (native, ok) in [(true, true), (false, false)] {
        let (_, w) = ask(d.start(Job::ReadAt { path: "/doc".to_string(), offset: 0, size: 9 }));
        let (c, w) = go(&mut d, w, Answer::Bytes(None));
        assert!(matches!(c, Call::GetFile { id } if id == "G"));
        let mut f = file("G", "doc");
        if native {
            f.size = None;
        }
        assert_eq!(f.is_native(), native);
        match end(&mut d, w, Answer::File(Some(f))) {
            Outcome::Bytes(b) => assert!(ok && b.is_empty()),
            Outcome::Failed => assert!(!ok),
            _ => panic!("no bytes"),
        }
    }
}

#[test]
fn writes_upload() {
    let mut d = drive();
    d.paths.insert("/a".to_string(), "A".to_string());
    assert!(matches!(done(d.start(Job::Write { path: "/a".to_string() })), Outcome::Upload(id) if id == "A"));
}

#[test]
fn new_files_are_known() {
    let mut d = drive();
    let (c, w) = ask(d.start(Job::CreateFile { path: "/n".to_string() }));
    assert!(matches!(c, Call::CreateFile { parent, name } if parent == "R" && name == "n"));
    assert!(matches!(end(&mut d, w, Answer::File(Some(file("N", "n")))), Outcome::Done));
    assert_eq!(d.paths.get("/n"), Some("N".to_string()));
    let (c, w) = ask(d.start(Job::CreateDir { path: "/m".to_string() }));
    assert!(matches!(c, Call::CreateFolder { .. }));
    assert!(matches!(end(&mut d, w, Answer::File(None)), Outcome::Failed));
}

#[test]
fn deletion_is_recoverable_once() {
    let mut d = drive();
    d.paths.insert("/a".to_string(), "A".to_string());
    d.paths.insert("/.Trash/b".to_string(), "B".to_string());
    let (c, w) = ask(d.start(Job::Delete { path: "/a".to_string() }));
    assert!(matches!(c, Call::Trash { id } if id == "A"));
    assert!(matches!(end(&mut d, w, Answer::Done(true)), Outcome::Done));
    assert_eq!(d.paths.get("/a"), None);
    let (c, w) = ask(d.start(Job::Delete { path: "/.Trash/b".to_string() }));
    assert!(matches!(c, Call::Delete { id } if id == "B"));
    assert!(matches!(end(&mut d, w, Answer::Done(false)), Outcome::Failed));
    assert_eq!(d.paths.get("/.Trash/b"), Some("B".to_string()));
}

#[test]
fn moves() {
    let mut d = drive();
    d.paths.insert("/a".to_string(), "A".to_string());
    d.paths.insert("/a/x".to_string(), "X".to_string());
    d.paths.insert("/d".to_string(), "D".to_string());
    let (c, w) = ask(d.start(Job::Rename { before: "/a".to_string(), after: "/d/b".to_string() }));
    assert!(matches!(
        c,
        Call::Move { id, name, old_parent, new_parent }
            if id == "A" && name == "b" && old_parent == "R" && new_parent == "D"
    ));
    assert!(matches!(end(&mut d, w, Answer::Done(true)), Outcome::Done));
    assert_eq!(d.paths.get("/d/b/x"), Some("X".to_string()));
    assert_eq!(d.paths.get("/a"), None);
}

#[test]
fn what_lies_deeper_in_the_trash_is_in_the_trash() {
    let mut d = drive();
    d.paths.insert("/.Trash/a/b".to_string(), "B".to_string());
    let job = Job::Rename { before: "/.Trash/a/b".to_string(), after: "/b".to_string() };
    let (c, _) = ask(d.start(job));
    assert!(matches!(c, Call::GetFile { id } if id == "B"));
    let (c, w) = ask(d.start(Job::Delete { path: "/.Trash/a/b".to_string() }));
    assert!(matches!(c, Call::Delete { id } if id == "B"));
    d.resume(w, Answer::Done(true));
    assert_eq!(d.paths.get("/.Trash/a/b"), None);
}

#[test]
fn moving_out_of_the_trash_restores() {
    let mut d = drive();
    d.paths.insert("/.Trash/b".to_string(), "B".to_string());
    let job = Job::Rename { before: "/.Trash/b".to_string(), after: "/d/b".to_string() };
    let (c, w) = ask(d.start(job));
    assert!(matches!(c, Call::ListChildren { folder } if folder == "R"));
    let (c, w) = go(&mut d, w, files(vec![folder("D", "d")]));
    assert!(matches!(c, Call::GetFile { id } if id == "B"));
    let f = DriveFile { parents: Some(vec!["P".to_string()]), ..file("B", "b") };
    let (c, w) = go(&mut d, w, Answer::File(Some(f)));
    assert!(matches!(
        c,
        Call::Restore { id, old_parents, parent, name }
            if id == "B" && old_parents == "P" && parent == "D" && name == "b"
    ));
    assert!(matches!(end(&mut d, w, Answer::Done(true)), Outcome::Done));
    assert_eq!(d.paths.get("/d/b"), Some("B".to_string()));
    assert_eq!(d.paths.get("/.Trash/b"), None);
}

#[test]
fn root_of_a_mount() {
    match resolve_root_id(Some("0ABC")) {
        RootId::Known(id) => assert_eq!(id, "0ABC"),
        RootId::Ask(_) => panic!("asked"),
    }
    match resolve_root_id(None) {
        RootId::Known(_) => panic!("known"),
        RootId::Ask(r) => {
            assert_eq!(r.url, "https://www.googleapis.com/drive/v3/files/root");
            assert_eq!(r.method, Method::Get);
        }
    }
}

#[test]
fn refused_accounts_are_explained() {
    assert_eq!(account_refusal(200), None);
    assert_eq!(account_refusal(401), None);
    let m = account_refusal(403).unwrap_or_default();
    assert!(m.starts_with("Google Drive API returned 403 Forbidden.\n\nThis usually means one of:\n"));
    assert!(m.contains("\n\n2. Your cached token was issued before the Drive scope was granted.\n"));
    assert!(m.ends_with("\nrm ~/.config/remotefs/gdrive_token_*.json"));
}
