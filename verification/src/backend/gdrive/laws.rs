//! What holds of jobs on Google Drive.

use vstd::prelude::*;

use crate::backend::gdrive::client::{parent_list, FileModel, Text};
use crate::backend::gdrive::model::{child_ids, shown_names, slice, slot_rank, Answer, Call};
use crate::backend::gdrive::model::{DriveModel, DriveStep, Job, Outcome, Phase, Slot, SpecAnswer};
use crate::backend::gdrive::model::{SpecNext, SpecWaiting, Waiting};
use crate::backend::gdrive::paths::{base_text, below, child_text, inside_trash, lemma_inserted};
use crate::backend::gdrive::paths::{law_move_carries_ids, law_remove_forgets_below, parent_text};
use crate::backend::gdrive::paths::{root, target, trash_path};
use crate::stat::{kind_of, FileType};

verus! {

/// A path whose id is known is asked about without any listing.
pub proof fn law_known_path_is_not_listed(s: DriveModel, path: Text)
    requires
        s.ids.contains_key(path),
        path != trash_path(),
        path != root(),
    ensures
        s.start(Job::Stat { path }) == s.asks(
            Call::GetFile { id: s.ids[path] },
            Job::Stat { path },
            Phase::Get { id: s.ids[path] },
        ),
{
}

/// The root and the trash are directories, and no call is needed to tell.
pub proof fn law_root_and_trash_are_directories(s: DriveModel)
    ensures
        s.start(Job::Stat { path: root() }) == s.replies(Outcome::Stat(Some(s.dir_stat()))),
        s.start(Job::Stat { path: trash_path() }) == s.replies(Outcome::Stat(Some(s.dir_stat()))),
        kind_of(s.dir_stat().perm) == FileType::Directory,
{
    assert(0o040755u32 & 0o170000 == 0o040000) by (bit_vector);
}

/// Once a directory was listed, every file in it is known by the path that it is shown
/// under: the id is that of a file shown so.
pub proof fn law_listed_files_are_known(s: DriveModel, path: Text, files: Seq<FileModel>, i: int)
    requires
        0 <= i < files.len(),
    ensures
        ({
            let w = Waiting { job: Job::ReadDir { path }, phase: Phase::List };
            let (t, step) = s.next(w, Answer::Files(Some(files)));
            let names = shown_names(path, files);
            let child = child_text(path, names[i]);
            &&& step == SpecNext::Reply(Outcome::Listing(s.listing(path, files)))
            &&& t.ids.contains_key(child)
            &&& exists|j: int|
                0 <= j < files.len() && child_text(path, #[trigger] names[j]) == child
                    && files[j].id == t.ids[child]
        }),
{
    let names = shown_names(path, files);
    let l = child_ids(path, names, files);
    let child = child_text(path, names[i]);
    lemma_inserted(s.ids, l);
    let t = s.listed(path, files);
    assert(l[i].0 == child);
    assert(t.ids.contains_key(child));
    let j = choose|j: int|
        0 <= j < l.len() && (#[trigger] l[j]).0 == child && l[j].1 == t.ids[child];
    assert(child_text(path, names[j]) == child);
}

/// The root's listing ends with the trash, and no other listing shows it on its own account.
pub proof fn law_trash_is_listed_at_root(s: DriveModel, path: Text, files: Seq<FileModel>)
    ensures
        s.listing(root(), files).len() == files.len() + 1,
        s.listing(root(), files).last() == (".Trash"@, s.dir_stat()),
        path != root() ==> s.listing(path, files).len() == files.len(),
{
}

/// Deleting a file moves it to the trash; deleting one that is inside the trash, at any depth,
/// removes it for good.
pub proof fn law_delete_is_recoverable_once(s: DriveModel, path: Text, id: Text)
    ensures
        s.found(Job::Delete { path }, Slot::Subject, id) == s.asks(
            if inside_trash(path) {
                Call::Delete { id }
            } else {
                Call::Trash { id }
            },
            Job::Delete { path },
            Phase::Remove,
        ),
{
}

/// A deleted path is forgotten, with everything below it; a refused deletion forgets nothing.
pub proof fn law_deleted_is_forgotten(s: DriveModel, path: Text, k: Text)
    requires
        below(k, path),
    ensures
        ({
            let w = Waiting { job: Job::Delete { path }, phase: Phase::Remove };
            let (t, step) = s.next(w, Answer::Done(true));
            &&& step == SpecNext::Reply(Outcome::Done)
            &&& !t.ids.contains_key(k)
            &&& s.next(w, Answer::Done(false)) == s.replies(Outcome::Failed)
        }),
{
    law_remove_forgets_below(s.ids, path, k);
}

/// Moving a file out of the trash restores it: the file is looked at, then taken out of its
/// parents and out of the trash into the new folder, and is known by the new path.
pub proof fn law_restore(
    s: DriveModel,
    before: Text,
    after: Text,
    id: Text,
    parent: Text,
    f: FileModel,
)
    requires
        inside_trash(before),
    ensures
        ({
            let job = Job::Rename { before, after };
            let slot = Slot::TargetParent { id, old_parent: None };
            let untrash = Waiting { job, phase: Phase::Untrash { id, parent } };
            let restore = Waiting { job, phase: Phase::Restore { id } };
            let (t, step) = s.next(restore, Answer::Done(true));
            &&& s.found(job, Slot::Subject, id) == s.seek(job, slot, parent_text(after))
            &&& s.found(job, slot, parent).1 == SpecNext::Ask(Call::GetFile { id }, untrash)
            &&& s.next(untrash, Answer::File(Some(f))).1 == SpecNext::Ask(
                Call::Restore {
                    id,
                    old_parents: parent_list(f),
                    parent,
                    name: base_text(after),
                },
                restore,
            )
            &&& step == SpecNext::Reply(Outcome::Done)
            &&& t.ids.contains_key(after) && t.ids[after] == id
            &&& after != before ==> !t.ids.contains_key(before)
        }),
{
    law_remove_forgets_below(s.ids, before, before);
}

/// A moved file is known by its new path, and so is what lies below it.
pub proof fn law_moved_is_known(s: DriveModel, before: Text, after: Text, k: Text)
    requires
        s.ids.contains_key(k),
        below(k, before),
    ensures
        ({
            let w = Waiting { job: Job::Rename { before, after }, phase: Phase::Move };
            let (t, step) = s.next(w, Answer::Done(true));
            &&& step == SpecNext::Reply(Outcome::Done)
            &&& t.ids.contains_key(target(k, before, after))
            &&& t.ids[target(k, before, after)] == s.ids[k]
            &&& s.next(w, Answer::Done(false)) == s.replies(Outcome::Failed)
        }),
{
    law_move_carries_ids(s.ids, before, after, k);
}

/// A new file is known by its path.
pub proof fn law_created_is_known(s: DriveModel, path: Text, f: FileModel)
    ensures
        ({
            let file = Waiting { job: Job::CreateFile { path }, phase: Phase::Make };
            let dir = Waiting { job: Job::CreateDir { path }, phase: Phase::Make };
            let t = s.next(file, Answer::File(Some(f)));
            let u = s.next(dir, Answer::File(Some(f)));
            &&& t.1 == SpecNext::Reply(Outcome::Done)
            &&& t.0.ids.contains_key(path) && t.0.ids[path] == f.id
            &&& u == t
        }),
{
}

/// A file larger than the limit is not downloaded.
pub proof fn law_large_files_are_not_downloaded(
    s: DriveModel,
    path: Text,
    max_bytes: u64,
    id: Text,
    f: FileModel,
)
    ensures
        s.next(
            Waiting { job: Job::DownloadTo { path, max_bytes }, phase: Phase::Get { id } },
            Answer::File(Some(f)),
        ) == s.replies(
            Outcome::Download(
                if f.size_bytes() <= max_bytes {
                    Some(id)
                } else {
                    None
                },
            ),
        ),
{
}

/// A file in one of Google's own formats is shown as an empty regular file, and reads as
/// nothing: where its content cannot be had, the file is looked at, and no bytes are read.
pub proof fn law_native_files_read_empty(
    s: DriveModel,
    path: Text,
    offset: u64,
    size: u32,
    id: Text,
    f: FileModel,
)
    requires
        f.is_native(),
    ensures
        ({
            let job = Job::ReadAt { path, offset, size };
            let native = Waiting { job, phase: Phase::Native };
            let content = Waiting { job, phase: Phase::Content { id } };
            &&& s.next(content, Answer::Bytes(None)).1 == SpecNext::Ask(Call::GetFile { id }, native)
            &&& s.next(native, Answer::File(Some(f))).1 == SpecNext::Reply(
                Outcome::Bytes(Seq::empty()),
            )
            &&& f.stat(s.uid, s.gid).size == 0
            &&& kind_of(f.stat(s.uid, s.gid).perm) == FileType::RegularFile
        }),
{
    assert(0o100644u32 & 0o170000 == 0o100000) by (bit_vector);
}

/// A content can be read in parts: two reads, one where the other ends, are one read.
pub proof fn law_reads_join(content: Seq<u8>, offset: u64, n: u32, m: u32)
    requires
        offset + n <= u64::MAX,
        n + m <= u32::MAX,
    ensures
        slice(content, offset, n) + slice(content, (offset + n) as u64, m) == slice(
            content,
            offset,
            (n + m) as u32,
        ),
{
    assert(slice(content, offset, n) + slice(content, (offset + n) as u64, m) =~= slice(
        content,
        offset,
        (n + m) as u32,
    ));
}

// ---------------------------------------------------------------------------
// Progress
// ---------------------------------------------------------------------------

/// What is left of a job: first the lookups, then the calls.
pub open spec fn stage(w: SpecWaiting) -> nat {
    match w.phase {
        Phase::Seek { slot, .. } => 2 + slot_rank(slot),
        Phase::Untrash { .. } => 1,
        Phase::Content { .. } => 1,
        _ => 0,
    }
}

/// How many listings are left of a lookup.
pub open spec fn listings_left(w: SpecWaiting) -> nat {
    match w.phase {
        Phase::Seek { chain, .. } => chain.len(),
        _ => 0,
    }
}

/// The step asks for nothing, or for a call of a stage below `n`.
pub open spec fn is_before(step: SpecNext, n: int) -> bool {
    match step {
        DriveStep::Ask(_, w) => stage(w) < n,
        DriveStep::Reply(_) => true,
    }
}

proof fn lemma_found_is_before(s: DriveModel, job: Job<Text>, slot: Slot<Text>, id: Text)
    ensures
        is_before(s.found(job, slot, id).1, 2 + slot_rank(slot) as int),
    decreases slot_rank(slot), 0nat,
{
    match job {
        Job::Rename { before, after } => match slot {
            Slot::Subject => {
                lemma_seek_is_before(
                    s,
                    job,
                    Slot::TargetParent { id, old_parent: None },
                    parent_text(after),
                );
                lemma_seek_is_before(s, job, Slot::SourceParent { id }, parent_text(before));
            },
            Slot::SourceParent { id: file } => {
                lemma_seek_is_before(
                    s,
                    job,
                    Slot::TargetParent { id: file, old_parent: Some(id) },
                    parent_text(after),
                );
            },
            _ => {},
        },
        _ => {},
    }
}

proof fn lemma_seek_is_before(s: DriveModel, job: Job<Text>, slot: Slot<Text>, path: Text)
    ensures
        is_before(s.seek(job, slot, path).1, 3 + slot_rank(slot) as int),
    decreases slot_rank(slot), 1nat,
{
    match s.known_id(s.anchor(path)) {
        Some(id) => {
            lemma_found_is_before(s, job, slot, id);
        },
        None => {},
    }
}

/// Every job comes to an end: each answer brings it to an outcome, to a later stage, or to a
/// lookup with fewer listings left.
pub proof fn law_jobs_end(s: DriveModel, w: SpecWaiting, a: SpecAnswer)
    ensures
        s.next(w, a).1 matches DriveStep::Ask(_, v) ==> stage(v) < stage(w) || (stage(v) == stage(w)
            && listings_left(v) < listings_left(w)),
{
    match w.phase {
        Phase::Seek { slot, folder, chain } => {
            match a {
                Answer::Files(Some(files)) => {
                    let t = s.listed(folder, files);
                    if chain.len() == 1 && t.ids.contains_key(chain[0]) {
                        lemma_found_is_before(t, w.job, slot, t.ids[chain[0]]);
                    }
                },
                _ => {},
            }
        },
        _ => {},
    }
}

} // verus!
