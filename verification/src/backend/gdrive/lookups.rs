//! Which files and folders on Google Drive the jobs are about.

use vstd::prelude::*;

use crate::backend::gdrive::client::{FileModel, Text};
use crate::backend::gdrive::model::{child_ids, is_movable, path_rank, shown_names, slot_rank};
use crate::backend::gdrive::model::{Answer, Call};
use crate::backend::gdrive::model::{DriveModel, DriveStep, Job, Outcome, Phase, Slot, SpecAnswer};
use crate::backend::gdrive::model::{SpecNext, SpecWaiting, Waiting};
use crate::backend::gdrive::paths::{base_text, child_text, inserted, inside_trash, law_child_parts};
use crate::backend::gdrive::paths::{below, law_move_keeps_others, law_remove_forgets_below};
use crate::backend::gdrive::paths::{lemma_inserted, lemma_parent_shorter, parent_text, root};
use crate::backend::gdrive::paths::trash_path;
use crate::text::starts;

verus! {

// ---------------------------------------------------------------------------
// Jobs on paths whose ids are known
// ---------------------------------------------------------------------------

/// The id of a path is known where it was learned, and only there; the trash has an id of its own,
/// whatever was learned.
pub proof fn law_known_ids(s: DriveModel, path: Text)
    ensures
        path != "/.Trash"@ && s.ids.contains_key(path) ==> s.known_id(path) == Some(s.ids[path]),
        path != "/.Trash"@ && !s.ids.contains_key(path) ==> s.known_id(path) is None,
        s.known_id("/.Trash"@) == Some("__trash__"@),
{
}

/// A job on a path whose id is known asks about exactly that file, without any listing: its
/// metadata, its content, or, where it is a directory, what is in it. Nothing changes.
pub proof fn law_known_path_is_used(
    s: DriveModel,
    path: Text,
    id: Text,
    max_bytes: u64,
    offset: u64,
    size: u32,
)
    requires
        s.known_id(path) == Some(id),
    ensures
        path != root() && path != trash_path() ==> s.start(Job::Stat { path }) == (
            s,
            SpecNext::Ask(
                Call::GetFile { id },
                Waiting { job: Job::Stat { path }, phase: Phase::Get { id } },
            ),
        ),
        s.start(Job::ReadDir { path }) == (
            s,
            SpecNext::Ask(
                if path == trash_path() {
                    Call::ListTrashed
                } else {
                    Call::ListChildren { folder: id }
                },
                Waiting { job: Job::ReadDir { path }, phase: Phase::List },
            ),
        ),
        s.start(Job::DownloadTo { path, max_bytes }) == (
            s,
            SpecNext::Ask(
                Call::GetFile { id },
                Waiting { job: Job::DownloadTo { path, max_bytes }, phase: Phase::Get { id } },
            ),
        ),
        s.start(Job::ReadAt { path, offset, size }) == (
            s,
            SpecNext::Ask(
                Call::Download { id },
                Waiting { job: Job::ReadAt { path, offset, size }, phase: Phase::Content { id } },
            ),
        ),
        s.start(Job::Write { path }) == (s, SpecNext::Reply(Outcome::Upload(id))),
{
}

/// A file whose id is known is deleted by that id: for good where it lies inside the trash, and
/// else into the trash.
pub proof fn law_known_file_is_deleted(s: DriveModel, path: Text, id: Text)
    requires
        s.known_id(path) == Some(id),
    ensures
        s.start(Job::Delete { path }) == (
            s,
            SpecNext::Ask(
                if inside_trash(path) {
                    Call::Delete { id }
                } else {
                    Call::Trash { id }
                },
                Waiting { job: Job::Delete { path }, phase: Phase::Remove },
            ),
        ),
{
}

/// A file or a folder is made in the directory that its path names, under the last name of the
/// path: where the id of that directory is known, the new entry goes into the folder with that
/// id.
pub proof fn law_new_entry_goes_into_its_directory(s: DriveModel, dir: Text, name: Text, id: Text)
    requires
        s.known_id(dir) == Some(id),
        dir.len() > 0,
        !name.contains('/'),
    ensures
        ({
            let path = child_text(dir, name);
            &&& s.start(Job::CreateFile { path }) == (
                s,
                SpecNext::Ask(
                    Call::CreateFile { parent: id, name },
                    Waiting { job: Job::CreateFile { path }, phase: Phase::Make },
                ),
            )
            &&& s.start(Job::CreateDir { path }) == (
                s,
                SpecNext::Ask(
                    Call::CreateFolder { parent: id, name },
                    Waiting { job: Job::CreateDir { path }, phase: Phase::Make },
                ),
            )
        }),
{
    law_child_parts(dir, name);
}

/// A move takes the file out of the folder that it is in, into the folder that the new path
/// names, under the last name of the new path. A file in the trash is looked at before it goes
/// to that folder.
pub proof fn law_move_goes_between_directories(
    s: DriveModel,
    dir: Text,
    name: Text,
    new_dir: Text,
    new_name: Text,
    id: Text,
    parent: Text,
    new_parent: Text,
)
    requires
        dir.len() > 0,
        new_dir.len() > 0,
        !name.contains('/'),
        !new_name.contains('/'),
        s.known_id(child_text(dir, name)) == Some(id),
        s.known_id(dir) == Some(parent),
        s.known_id(new_dir) == Some(new_parent),
    ensures
        ({
            let before = child_text(dir, name);
            let after = child_text(new_dir, new_name);
            let job = Job::Rename { before, after };
            s.start(job) == (
                s,
                if inside_trash(before) {
                    SpecNext::Ask(
                        Call::GetFile { id },
                        Waiting { job, phase: Phase::Untrash { id, parent: new_parent } },
                    )
                } else {
                    SpecNext::Ask(
                        Call::Move { id, name: new_name, old_parent: parent, new_parent },
                        Waiting { job, phase: Phase::Move },
                    )
                },
            )
        }),
{
    law_child_parts(dir, name);
    law_child_parts(new_dir, new_name);
    let before = child_text(dir, name);
    let job = Job::Rename { before, after: child_text(new_dir, new_name) };
    let leaves = Slot::SourceParent { id };
    let enters = Slot::TargetParent { id, old_parent: Some(parent) };
    let back = Slot::TargetParent { id, old_parent: None };
    assert(s.start(job) == s.seek(job, Slot::Subject, before));
    assert(s.seek(job, Slot::Subject, before) == s.found(job, Slot::Subject, id));
    assert(s.seek(job, leaves, dir) == s.found(job, leaves, parent));
    assert(s.found(job, leaves, parent) == s.seek(job, enters, new_dir));
    assert(s.seek(job, enters, new_dir) == s.found(job, enters, new_parent));
    assert(s.seek(job, back, new_dir) == s.found(job, back, new_parent));
}

// ---------------------------------------------------------------------------
// Paths whose ids have to be found
// ---------------------------------------------------------------------------

/// The way down to a path whose id is not known starts at a directory whose id is: the nearest
/// one above. Each path on the way is in the directory before it, none of their ids is known,
/// and the last is the path itself. Where the id of the path is known there is no way to go.
pub proof fn law_way_down(s: DriveModel, path: Text)
    requires
        s.wf(),
    ensures
        s.known_id(s.anchor(path)) is Some,
        s.known_id(path) is Some ==> s.anchor(path) == path && s.chain(path).len() == 0,
        s.known_id(path) is None ==> s.chain(path).len() > 0 && s.chain(path).last() == path
            && parent_text(s.chain(path)[0]) == s.anchor(path),
        forall|i: int|
            0 <= i < s.chain(path).len() ==> s.known_id(#[trigger] s.chain(path)[i]) is None,
        forall|i: int|
            0 < i < s.chain(path).len() ==> parent_text(#[trigger] s.chain(path)[i]) == s.chain(
                path,
            )[i - 1],
    decreases path_rank(path),
{
    if s.known_id(path) is None && path != root() {
        lemma_parent_shorter(path);
        law_way_down(s, parent_text(path));
        let up = s.chain(parent_text(path));
        let all = s.chain(path);
        assert(all == up.push(path));
        assert forall|i: int| 0 < i < all.len() implies parent_text(#[trigger] all[i]) == all[i
            - 1] by {
            if i < up.len() {
                assert(all[i] == up[i]);
            } else {
                assert(all[i - 1] == up.last());
            }
        }
    }
}

/// What lists a directory: the children of the folder with its id, or what is in the trash.
pub open spec fn lists(dir: Text, id: Text) -> Call<Text> {
    if dir == trash_path() {
        Call::ListTrashed
    } else {
        Call::ListChildren { folder: id }
    }
}

/// A job whose path has no known id lists the nearest directory above whose id is known, to
/// find the way down from there: for most jobs to the path itself, for a new file or folder to
/// the directory that is to hold it.
pub proof fn law_unknown_path_is_looked_for(s: DriveModel, job: Job<Text>, sought: Text, id: Text)
    requires
        s.wf(),
        s.known_id(sought) is None,
        s.known_id(s.anchor(sought)) == Some(id),
        match job {
            Job::Stat { path } => path == sought,
            Job::ReadDir { path } => path == sought,
            Job::DownloadTo { path, .. } => path == sought,
            Job::ReadAt { path, .. } => path == sought,
            Job::Write { path } => path == sought,
            Job::Delete { path } => path == sought,
            Job::Rename { before, .. } => before == sought,
            Job::CreateFile { path } => parent_text(path) == sought,
            Job::CreateDir { path } => parent_text(path) == sought,
        },
    ensures
        s.start(job) == (
            s,
            SpecNext::Ask(
                lists(s.anchor(sought), id),
                Waiting {
                    job,
                    phase: Phase::Seek {
                        slot: Slot::Subject,
                        folder: s.anchor(sought),
                        chain: s.chain(sought),
                    },
                },
            ),
        ),
{
    law_way_down(s, sought);
}

/// A move whose folders are not known looks for them once it knows the file: first for the one
/// that the file leaves, unless that is the trash, then for the one that it enters. What was
/// found on the way is kept.
pub proof fn law_move_looks_for_folders(
    s: DriveModel,
    before: Text,
    after: Text,
    id: Text,
    parent: Text,
    folder: Text,
)
    requires
        s.wf(),
    ensures
        ({
            let job = Job::Rename { before, after };
            let from = parent_text(before);
            let into = parent_text(after);
            let seeks = |slot: Slot<Text>, path: Text|
                (
                    s,
                    SpecNext::Ask(
                        lists(s.anchor(path), s.known_id(s.anchor(path))->0),
                        Waiting {
                            job,
                            phase: Phase::Seek {
                                slot,
                                folder: s.anchor(path),
                                chain: s.chain(path),
                            },
                        },
                    ),
                );
            &&& !inside_trash(before) && s.known_id(from) is None ==> s.found(
                job,
                Slot::Subject,
                id,
            ) == seeks(Slot::SourceParent { id }, from)
            &&& inside_trash(before) && s.known_id(into) is None ==> s.found(job, Slot::Subject, id)
                == seeks(Slot::TargetParent { id, old_parent: None }, into)
            &&& s.known_id(into) == Some(folder) ==> s.found(job, Slot::SourceParent { id }, parent)
                == s.found(job, Slot::TargetParent { id, old_parent: Some(parent) }, folder)
            &&& s.known_id(into) is None ==> s.found(job, Slot::SourceParent { id }, parent)
                == seeks(Slot::TargetParent { id, old_parent: Some(parent) }, into)
            &&& s.found(job, Slot::TargetParent { id, old_parent: Some(parent) }, folder) == (
                s,
                SpecNext::Ask(
                    Call::Move {
                        id,
                        name: base_text(after),
                        old_parent: parent,
                        new_parent: folder,
                    },
                    Waiting { job, phase: Phase::Move },
                ),
            )
            &&& s.found(job, Slot::TargetParent { id, old_parent: None }, folder) == (
                s,
                SpecNext::Ask(
                    Call::GetFile { id },
                    Waiting { job, phase: Phase::Untrash { id, parent: folder } },
                ),
            )
        }),
{
    law_way_down(s, parent_text(before));
    law_way_down(s, parent_text(after));
    reveal_with_fuel(DriveModel::seek, 4);
    reveal_with_fuel(DriveModel::found, 4);
}

/// `t` is `s` once the files of a directory were listed: each is known by the path that it is
/// shown under, the last of those that share one; every other path is known as it was, and
/// nothing else changes.
pub open spec fn learns(s: DriveModel, t: DriveModel, dir: Text, files: Seq<FileModel>) -> bool {
    let names = shown_names(dir, files);
    &&& t.uid == s.uid && t.gid == s.gid
    &&& forall|i: int|
        #![trigger names[i]]
        0 <= i < files.len() && (forall|j: int|
            #![trigger names[j]]
            i < j < files.len() ==> child_text(dir, names[j]) != child_text(dir, names[i]))
            ==> t.ids.contains_key(child_text(dir, names[i])) && t.ids[child_text(dir, names[i])]
            == files[i].id
    &&& forall|k: Text|
        #![trigger t.ids.contains_key(k)]
        (forall|i: int| #![trigger names[i]] 0 <= i < files.len() ==> child_text(dir, names[i]) != k)
            ==> t.ids.contains_key(k) == s.ids.contains_key(k) && (s.ids.contains_key(k)
            ==> t.ids[k] == s.ids[k])
}

proof fn lemma_inserted_last(m: Map<Text, Text>, l: Seq<(Text, Text)>, i: int)
    requires
        0 <= i < l.len(),
        forall|j: int| i < j < l.len() ==> (#[trigger] l[j]).0 != l[i].0,
    ensures
        inserted(m, l).contains_key(l[i].0),
        inserted(m, l)[l[i].0] == l[i].1,
    decreases l.len(),
{
    if i < l.len() - 1 {
        let front = l.drop_last();
        assert(l[l.len() - 1].0 != l[i].0);
        assert forall|j: int| i < j < front.len() implies (#[trigger] front[j]).0 != front[i].0 by {
            assert(front[j] == l[j]);
        }
        lemma_inserted_last(m, front, i);
    }
}

proof fn lemma_listed_learns(s: DriveModel, dir: Text, files: Seq<FileModel>)
    ensures
        learns(s, s.listed(dir, files), dir, files),
{
    let names = shown_names(dir, files);
    let l = child_ids(dir, names, files);
    let t = s.listed(dir, files);
    lemma_inserted(s.ids, l);
    assert forall|i: int|
        #![trigger names[i]]
        0 <= i < files.len() && (forall|j: int|
            #![trigger names[j]]
            i < j < files.len() ==> child_text(dir, names[j]) != child_text(dir, names[i])) implies
        t.ids.contains_key(child_text(dir, names[i])) && t.ids[child_text(dir, names[i])]
        == files[i].id by {
        assert forall|j: int| i < j < l.len() implies (#[trigger] l[j]).0 != l[i].0 by {
            assert(l[j].0 == child_text(dir, names[j]));
        }
        lemma_inserted_last(s.ids, l, i);
        assert(l[i].0 == child_text(dir, names[i]));
    }
    assert forall|k: Text|
        #![trigger t.ids.contains_key(k)]
        (forall|i: int|
            #![trigger names[i]]
            0 <= i < files.len() ==> child_text(dir, names[i]) != k) implies t.ids.contains_key(k)
        == s.ids.contains_key(k) && (s.ids.contains_key(k) ==> t.ids[k] == s.ids[k]) by {
        assert forall|j: int| 0 <= j < l.len() implies (#[trigger] l[j]).0 != k by {
            assert(l[j].0 == child_text(dir, names[j]));
        }
    }
}

/// A listing on the way down teaches the ids of what is in the directory. Where the next path
/// is there, its directory is listed in turn, or, where it was the last, the job goes on with
/// its id; where it is not there, the job's file is gone. A listing that fails teaches nothing,
/// and ends the job the same way.
pub proof fn law_way_down_is_taken(
    s: DriveModel,
    job: Job<Text>,
    slot: Slot<Text>,
    folder: Text,
    chain: Seq<Text>,
    files: Seq<FileModel>,
)
    requires
        chain.len() > 0,
    ensures
        ({
            let w = Waiting { job, phase: Phase::Seek { slot, folder, chain } };
            let (t, step) = s.next(w, Answer::Files(Some(files)));
            let gone = SpecNext::Reply(
                match job {
                    Job::Stat { .. } => Outcome::Stat(None),
                    Job::DownloadTo { .. } => Outcome::Download(None),
                    _ => Outcome::Failed,
                },
            );
            &&& learns(s, t, folder, files)
            &&& t.ids.contains_key(chain[0]) && chain.len() > 1 ==> step == SpecNext::Ask(
                lists(chain[0], t.ids[chain[0]]),
                Waiting {
                    job,
                    phase: Phase::Seek { slot, folder: chain[0], chain: chain.drop_first() },
                },
            )
            &&& t.ids.contains_key(chain[0]) && chain.len() == 1 ==> (t, step) == t.found(
                job,
                slot,
                t.ids[chain[0]],
            )
            &&& !t.ids.contains_key(chain[0]) ==> step == gone
            &&& s.next(w, Answer::Files(None)) == (s, gone)
        }),
{
    lemma_listed_learns(s, folder, files);
    if chain.len() == 1 {
        let u = s.listed(folder, files);
        if u.ids.contains_key(chain[0]) {
            lemma_found_keeps(u, job, slot, u.ids[chain[0]]);
        }
    }
}

/// Finding an id changes nothing that is known.
proof fn lemma_found_keeps(s: DriveModel, job: Job<Text>, slot: Slot<Text>, id: Text)
    ensures
        s.found(job, slot, id).0 == s,
    decreases slot_rank(slot), 0nat,
{
    match job {
        Job::Rename { before, after } => match slot {
            Slot::Subject => {
                lemma_seek_keeps(
                    s,
                    job,
                    Slot::TargetParent { id, old_parent: None },
                    parent_text(after),
                );
                lemma_seek_keeps(s, job, Slot::SourceParent { id }, parent_text(before));
            },
            Slot::SourceParent { id: file } => {
                lemma_seek_keeps(
                    s,
                    job,
                    Slot::TargetParent { id: file, old_parent: Some(id) },
                    parent_text(after),
                );
            },
            _ => {},
        },
        _ => {},
    }
}

proof fn lemma_seek_keeps(s: DriveModel, job: Job<Text>, slot: Slot<Text>, path: Text)
    ensures
        s.seek(job, slot, path).0 == s,
    decreases slot_rank(slot), 1nat,
{
    match s.known_id(s.anchor(path)) {
        Some(id) => {
            lemma_found_keeps(s, job, slot, id);
        },
        None => {},
    }
}

/// A job that had to look for its file goes on, once its directory was listed and shows the
/// file, just as one whose path was known from the start.
pub proof fn law_found_path_goes_on_as_known(
    s: DriveModel,
    job: Job<Text>,
    folder: Text,
    files: Seq<FileModel>,
    sought: Text,
)
    requires
        sought != trash_path(),
        sought != root(),
        s.listed(folder, files).ids.contains_key(sought),
        match job {
            Job::Stat { path } => path == sought,
            Job::ReadDir { path } => path == sought,
            Job::DownloadTo { path, .. } => path == sought,
            Job::ReadAt { path, .. } => path == sought,
            Job::Write { path } => path == sought,
            Job::Delete { path } => path == sought,
            Job::Rename { before, .. } => before == sought,
            Job::CreateFile { path } => parent_text(path) == sought,
            Job::CreateDir { path } => parent_text(path) == sought,
        },
    ensures
        ({
            let w = Waiting {
                job,
                phase: Phase::Seek { slot: Slot::Subject, folder, chain: seq![sought] },
            };
            let (t, step) = s.next(w, Answer::Files(Some(files)));
            (t, step) == t.start(job)
        }),
{
    let t = s.listed(folder, files);
    lemma_found_keeps(t, job, Slot::Subject, t.ids[sought]);
}

// ---------------------------------------------------------------------------
// Outcomes
// ---------------------------------------------------------------------------

/// What a job's last call brings is its outcome: the attributes of the file that was asked for;
/// the id to download, unless the file is too large; the names of the directory with their
/// files' attributes, which are then known; the bytes from the offset on, as many as were asked
/// for and are there.
pub proof fn law_answers_are_outcomes(
    s: DriveModel,
    path: Text,
    id: Text,
    f: FileModel,
    max_bytes: u64,
    content: Seq<u8>,
    offset: u64,
    size: u32,
)
    ensures
        s.next(
            Waiting { job: Job::Stat { path }, phase: Phase::Get { id } },
            Answer::File(Some(f)),
        ) == (s, SpecNext::Reply(Outcome::Stat(Some(f.stat(s.uid, s.gid))))),
        s.next(
            Waiting { job: Job::DownloadTo { path, max_bytes }, phase: Phase::Get { id } },
            Answer::File(Some(f)),
        ) == (
            s,
            SpecNext::Reply(
                Outcome::Download(
                    if f.size_bytes() <= max_bytes {
                        Some(id)
                    } else {
                        None
                    },
                ),
            ),
        ),
        ({
            let w = Waiting {
                job: Job::ReadAt { path, offset, size },
                phase: Phase::Content { id },
            };
            let (t, step) = s.next(w, Answer::Bytes(Some(content)));
            &&& t == s
            &&& step matches DriveStep::Reply(Outcome::Bytes(b)) && {
                &&& b.len() <= size
                &&& offset + size <= content.len() ==> b.len() == size
                &&& offset <= content.len() < offset + size ==> b.len() == content.len() - offset
                &&& offset > content.len() ==> b.len() == 0
                &&& forall|i: int| 0 <= i < b.len() ==> #[trigger] b[i] == content[offset + i]
            }
        }),
{
}

/// A directory's listing shows every file under its name, or, in the trash, under a name of its
/// own there, with its attributes; the root shows the trash after them. The files are known from
/// then on.
pub proof fn law_listing_shows_files(s: DriveModel, path: Text, files: Seq<FileModel>, i: int)
    requires
        0 <= i < files.len(),
    ensures
        ({
            let w = Waiting { job: Job::ReadDir { path }, phase: Phase::List };
            let (t, step) = s.next(w, Answer::Files(Some(files)));
            &&& learns(s, t, path, files)
            &&& step matches DriveStep::Reply(Outcome::Listing(l)) && {
                &&& l.len() == files.len() + (if path == root() {
                    1int
                } else {
                    0int
                })
                &&& l[i].0 == shown_names(path, files)[i]
                &&& path != trash_path() ==> l[i].0 == files[i].name
                &&& l[i].1 == files[i].stat(s.uid, s.gid)
                &&& path == root() ==> l.last() == (".Trash"@, s.dir_stat())
            }
        }),
{
    lemma_listed_learns(s, path, files);
    reveal_strlit("/");
    reveal_strlit("/.Trash");
    assert(root().len() != trash_path().len());
}

/// A call that fails ends the job and changes nothing that is known: attributes and downloads
/// have none to tell, and every other job fails. The one exception is content that cannot be
/// had: the file is looked at before the job ends.
pub proof fn law_failed_call_ends_job(s: DriveModel, w: SpecWaiting, a: SpecAnswer)
    requires
        match a {
            Answer::Files(l) => l is None,
            Answer::File(f) => f is None,
            Answer::Bytes(b) => b is None && !(w.phase is Content),
            Answer::Done(b) => !b,
        },
    ensures
        s.next(w, a) == (
            s,
            SpecNext::Reply(
                match w.job {
                    Job::Stat { .. } => Outcome::Stat(None),
                    Job::DownloadTo { .. } => Outcome::Download(None),
                    _ => Outcome::Failed,
                },
            ),
        ),
{
}

/// A new entry is known by its path, with the id that it was given; what was known of other
/// paths stays.
pub proof fn law_created_changes_only_that(s: DriveModel, path: Text, f: FileModel, other: Text)
    requires
        other != path,
    ensures
        ({
            let w = Waiting { job: Job::CreateFile { path }, phase: Phase::Make };
            let (t, step) = s.next(w, Answer::File(Some(f)));
            &&& step == SpecNext::Reply(Outcome::Done)
            &&& t.known_id(other) == s.known_id(other)
            &&& t.ids.contains_key(path) && t.ids[path] == f.id
            &&& (t.uid, t.gid) == (s.uid, s.gid)
        }),
{
}

/// What was deleted, moved away or restored is not known by its old path any more, and a path
/// that has nothing to do with the old one or the new one is known as it was.
pub proof fn law_changes_keep_other_paths(
    s: DriveModel,
    before: Text,
    after: Text,
    id: Text,
    other: Text,
)
    requires
        !starts(other, before),
        !starts(other, after),
    ensures
        ({
            let job = Job::Rename { before, after };
            let deleted = Waiting { job: Job::Delete { path: before }, phase: Phase::Remove };
            let t = s.next(deleted, Answer::Done(true)).0;
            let u = s.next(Waiting { job, phase: Phase::Move }, Answer::Done(true)).0;
            let v = s.next(Waiting { job, phase: Phase::Restore { id } }, Answer::Done(true)).0;
            &&& t.known_id(other) == s.known_id(other)
            &&& u.known_id(other) == s.known_id(other)
            &&& v.known_id(other) == s.known_id(other)
            &&& (t.uid, t.gid) == (s.uid, s.gid)
            &&& (u.uid, u.gid) == (s.uid, s.gid)
            &&& (v.uid, v.gid) == (s.uid, s.gid)
        }),
{
    law_remove_forgets_below(s.ids, before, other);
    if below(other, before) {
        lemma_below_starts(other, before);
    }
    if below(other, after) {
        lemma_below_starts(other, after);
    }
    law_move_keeps_others(s.ids, before, after, other);
    if other == after {
        assert(other.subrange(0, after.len() as int) =~= after);
    }
}

proof fn lemma_below_starts(k: Text, dir: Text)
    requires
        below(k, dir),
    ensures
        starts(k, dir),
{
    reveal_strlit("/");
    assert(k.subrange(0, dir.len() as int) =~= dir) by {
        if k != dir {
            assert forall|i: int| 0 <= i < dir.len() implies k[i] == dir[i] by {
                assert(k[i] == (dir + root())[i]);
            }
        }
    }
}

/// Only the root, under either of its names, may be neither deleted nor moved.
pub proof fn law_root_stays(path: Text, after: Text)
    ensures
        is_movable(path) <==> path != "/"@ && path != Seq::<char>::empty(),
        (Job::Delete { path }).wf() == is_movable(path),
        (Job::Rename { before: path, after }).wf() == is_movable(path),
{
    if path.len() == 0 {
        assert(path =~= Seq::<char>::empty());
    }
}

/// The root and the trash are directories that their owner may change and all may enter. They
/// belong to the user of the mount, and have neither size nor time.
pub proof fn law_virtual_directories(s: DriveModel)
    ensures
        s.dir_stat().perm == 0o040755,
        s.dir_stat().uid == s.uid,
        s.dir_stat().gid == s.gid,
        s.dir_stat().size == 0,
        s.dir_stat().atime == 0,
        s.dir_stat().mtime == 0,
        s.start(Job::Stat { path: root() }) == (
            s,
            SpecNext::Reply(Outcome::Stat(Some(s.dir_stat()))),
        ),
        s.start(Job::Stat { path: trash_path() }) == (
            s,
            SpecNext::Reply(Outcome::Stat(Some(s.dir_stat()))),
        ),
{
}

/// Content that cannot be had is an error, unless the file is in one of Google's own formats.
pub proof fn law_missing_content_fails(
    s: DriveModel,
    path: Text,
    offset: u64,
    size: u32,
    id: Text,
    f: FileModel,
)
    requires
        !f.is_native(),
    ensures
        ({
            let job = Job::ReadAt { path, offset, size };
            &&& s.next(Waiting { job, phase: Phase::Content { id } }, Answer::Bytes(None)) == (
                s,
                SpecNext::Ask(Call::GetFile { id }, Waiting { job, phase: Phase::Native }),
            )
            &&& s.next(Waiting { job, phase: Phase::Native }, Answer::File(Some(f))) == (
                s,
                SpecNext::Reply(Outcome::Failed),
            )
        }),
{
}

} // verus!
