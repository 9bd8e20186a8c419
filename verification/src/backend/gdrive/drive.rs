//! The state of the Drive backend.

use vstd::prelude::*;

use crate::backend::gdrive::client::{drive_file_to_stat, join_parents, models, DriveFile};
use crate::backend::gdrive::client::Text;
use crate::backend::gdrive::model::{answers_well, child_ids, is_movable, path_rank, shown_names};
use crate::backend::gdrive::model::{slice, slot_rank, stats, Answer, Call, DriveAnswer, DriveCall};
use crate::backend::gdrive::model::{DriveJob, DriveModel, DriveNext, DriveOutcome, DriveStep};
use crate::backend::gdrive::model::{DriveWaiting, Job, Outcome, Phase, Slot, SpecAnswer};
use crate::backend::gdrive::model::{SpecNext, Waiting};
use crate::backend::gdrive::paths::{base_name, child_path, is_inside_trash};
use crate::backend::gdrive::paths::{lemma_inserted, lemma_parent_shorter, moved, name_trash};
use crate::backend::gdrive::paths::{pair_views, parent_path, removed, root};
use crate::backend::gdrive::paths::PathCache;
use crate::stat::{StatData, DIRECTORY_MODE};
use crate::text::{same, starts, views};

verus! {

/// What the backend knows of a Drive, for the user and the group of the mount.
pub struct DriveState {
    pub paths: PathCache,
    pub uid: u32,
    pub gid: u32,
}

impl View for DriveState {
    type V = DriveModel;

    open spec fn view(&self) -> DriveModel {
        DriveModel { ids: self.paths@, uid: self.uid, gid: self.gid }
    }
}

/// Names the files of a listing of a folder.
fn show(folder: &str, files: &Vec<DriveFile>) -> (r: Vec<String>)
    ensures
        views(r@) == shown_names(folder@, models(files@)),
{
    if same(folder, "/.Trash") {
        return name_trash(files);
    }
    let mut r: Vec<String> = Vec::new();
    let mut i: usize = 0;
    while i < files.len()
        invariant
            i <= files@.len(),
            r@.len() == i,
            forall|j: int| 0 <= j < i ==> (#[trigger] r@[j])@ == files@[j].name@,
        decreases files@.len() - i,
    {
        r.push(files[i].name.clone());
        i = i + 1;
    }
    assert(views(r@) =~= shown_names(folder@, models(files@)));
    r
}

/// Cuts a part out of a content.
fn cut_out(content: Vec<u8>, offset: u64, size: u32) -> (r: Vec<u8>)
    ensures
        r@ == slice(content@, offset, size),
{
    let n: usize = content.len();
    let start: usize = if offset < n as u64 {
        offset as usize
    } else {
        n
    };
    let end: usize = if (size as u64) < (n - start) as u64 {
        start + size as usize
    } else {
        n
    };
    let mut r: Vec<u8> = Vec::new();
    let mut i: usize = start;
    while i < end
        invariant
            start <= i <= end <= content@.len(),
            r@ == content@.subrange(start as int, i as int),
        decreases end - i,
    {
        r.push(content[i]);
        i = i + 1;
        assert(r@ =~= content@.subrange(start as int, i as int));
    }
    r
}

fn gone(job: &DriveJob) -> (o: DriveOutcome)
    ensures
        o@ == job@.gone(),
{
    match job {
        Job::Stat { .. } => Outcome::Stat(None),
        Job::DownloadTo { .. } => Outcome::Download(None),
        _ => Outcome::Failed,
    }
}

fn list_call(folder: &str, id: String) -> (c: DriveCall)
    ensures
        c@ == DriveModel::list_call(folder@, id@),
{
    if same(folder, "/.Trash") {
        Call::ListTrashed
    } else {
        Call::ListChildren { folder: id }
    }
}

fn ask(call: DriveCall, job: DriveJob, phase: Phase<String, Vec<String>>) -> (step: DriveNext)
    ensures
        step@ == SpecNext::Ask(call@, (Waiting { job, phase })@),
{
    DriveStep::Ask(call, Waiting { job, phase })
}

impl DriveState {
    /// The path cache is well formed and knows the root.
    pub open spec fn wf(&self) -> bool {
        self.paths.wf() && self@.wf()
    }

    /// The state of a mount whose root has the given id.
    pub fn new(root_id: String, uid: u32, gid: u32) -> (s: Self)
        ensures
            s.wf(),
            s@ == (DriveModel { ids: map![root() => root_id@], uid, gid }),
    {
        DriveState { paths: PathCache::new(root_id), uid, gid }
    }

    fn known_id(&self, path: &str) -> (r: Option<String>)
        ensures
            match r {
                Some(id) => self@.known_id(path@) == Some(id@),
                None => self@.known_id(path@) is None,
            },
    {
        if same(path, "/.Trash") {
            Some("__trash__".to_owned())
        } else {
            self.paths.get(path)
        }
    }

    fn dir_stat(&self) -> (s: StatData)
        ensures
            s == self@.dir_stat(),
    {
        StatData { size: 0, uid: self.uid, gid: self.gid, perm: DIRECTORY_MODE, atime: 0, mtime: 0 }
    }

    /// Finds the nearest directory above `path` whose id is known, and what lies between.
    fn find_anchor(&self, path: &str) -> (r: (String, String, Vec<String>))
        requires
            self.wf(),
        ensures
            r.0@ == self@.anchor(path@),
            self@.known_id(r.0@) == Some(r.1@),
            views(r.2@) == self@.chain(path@),
        decreases path_rank(path@),
    {
        match self.known_id(path) {
            Some(id) => {
                let chain: Vec<String> = Vec::new();
                assert(views(chain@) =~= Seq::<Text>::empty());
                (path.to_owned(), id, chain)
            },
            None => {
                let parent = parent_path(path);
                proof {
                    lemma_parent_shorter(path@);
                    reveal_strlit("/.Trash");
                    reveal_strlit("/");
                }
                let (folder, id, below) = self.find_anchor(parent.as_str());
                let mut chain = below;
                let ghost had = chain@;
                chain.push(path.to_owned());
                assert(views(chain@) =~= views(had).push(path@));
                (folder, id, chain)
            },
        }
    }

    /// Puts the files of a listing of `folder` into the path cache.
    fn remember(&mut self, folder: &str, names: &Vec<String>, files: &Vec<DriveFile>)
        requires
            old(self).wf(),
            views(names@) == shown_names(folder@, models(files@)),
        ensures
            final(self).wf(),
            final(self)@ == old(self)@.listed(folder@, models(files@)),
    {
        let mut todo: Vec<(String, String)> = Vec::new();
        let ghost want = child_ids(folder@, views(names@), models(files@));
        let mut i: usize = 0;
        assert(views(names@).len() == names@.len());
        while i < files.len()
            invariant
                i <= files@.len(),
                names@.len() == files@.len(),
                want == child_ids(folder@, views(names@), models(files@)),
                todo@.len() == i,
                forall|j: int|
                    0 <= j < i ==> (#[trigger] todo@[j]).0@ == want[j].0 && todo@[j].1@ == want[j].1,
            decreases files@.len() - i,
        {
            let path = child_path(folder, names[i].as_str());
            todo.push((path, files[i].id.clone()));
            i = i + 1;
        }
        assert(pair_views(todo@) =~= want);
        proof {
            lemma_inserted(self@.ids, want);
        }
        self.paths.insert_all(todo);
    }

    /// What a listing of `folder` shows.
    fn stats_of(&self, folder: &str, names: Vec<String>, files: &Vec<DriveFile>) -> (r: Vec<
        (String, StatData),
    >)
        requires
            views(names@) == shown_names(folder@, models(files@)),
            forall|i: int| 0 <= i < models(files@).len() ==> (#[trigger] models(files@)[i]).wf(),
        ensures
            stats(r@) == self@.listing(folder@, models(files@)),
    {
        let ghost fs = models(files@);
        let ghost shown = shown_names(folder@, fs);
        assert(views(names@).len() == names@.len());
        let mut r: Vec<(String, StatData)> = Vec::new();
        let mut i: usize = 0;
        while i < files.len()
            invariant
                i <= files@.len(),
                names@.len() == files@.len(),
                fs == models(files@),
                shown == views(names@),
                forall|j: int| 0 <= j < fs.len() ==> (#[trigger] fs[j]).wf(),
                r@.len() == i,
                forall|j: int|
                    0 <= j < i ==> (#[trigger] r@[j]).0@ == shown[j] && r@[j].1 == fs[j].stat(
                        self.uid,
                        self.gid,
                    ),
            decreases files@.len() - i,
        {
            assert(fs[i as int].wf());
            let stat = drive_file_to_stat(&files[i], self.uid, self.gid);
            r.push((names[i].clone(), stat));
            i = i + 1;
        }
        if same(folder, "/") {
            r.push((".Trash".to_owned(), self.dir_stat()));
        }
        assert(stats(r@) =~= self@.listing(folder@, fs));
        r
    }

    /// Looks for the id of a path.
    fn seek(&mut self, job: DriveJob, slot: Slot<String>, path: &str) -> (step: DriveNext)
        requires
            old(self).wf(),
        ensures
            final(self).wf(),
            (final(self)@, step@) == old(self)@.seek(job@, slot@, path@),
        decreases slot_rank(slot@), 1nat,
    {
        let (folder, id, chain) = self.find_anchor(path);
        assert(views(chain@).len() == chain@.len());
        if chain.len() == 0 {
            self.found(job, slot, id)
        } else {
            let call = list_call(folder.as_str(), id);
            ask(call, job, Phase::Seek { slot, folder, chain })
        }
    }

    /// Goes on with the id that was looked for.
    fn found(&mut self, job: DriveJob, slot: Slot<String>, id: String) -> (step: DriveNext)
        requires
            old(self).wf(),
        ensures
            final(self).wf(),
            (final(self)@, step@) == old(self)@.found(job@, slot@, id@),
        decreases slot_rank(slot@), 0nat,
    {
        let (call, phase) = match &job {
            Job::Stat { .. } => (Call::GetFile { id: id.clone() }, Phase::Get { id }),
            Job::DownloadTo { .. } => (Call::GetFile { id: id.clone() }, Phase::Get { id }),
            Job::ReadDir { .. } => (Call::ListChildren { folder: id }, Phase::List),
            Job::ReadAt { .. } => (Call::Download { id: id.clone() }, Phase::Content { id }),
            Job::Write { .. } => {
                return DriveStep::Reply(Outcome::Upload(id));
            },
            Job::CreateFile { path } => (
                Call::CreateFile { parent: id, name: base_name(path.as_str()) },
                Phase::Make,
            ),
            Job::CreateDir { path } => (
                Call::CreateFolder { parent: id, name: base_name(path.as_str()) },
                Phase::Make,
            ),
            Job::Delete { path } => (
                if is_inside_trash(path.as_str()) {
                    Call::Delete { id }
                } else {
                    Call::Trash { id }
                },
                Phase::Remove,
            ),
            Job::Rename { before, after } => match slot {
                Slot::Subject => {
                    if is_inside_trash(before.as_str()) {
                        let parent = parent_path(after.as_str());
                        return self.seek(
                            job,
                            Slot::TargetParent { id, old_parent: None },
                            parent.as_str(),
                        );
                    } else {
                        let parent = parent_path(before.as_str());
                        return self.seek(job, Slot::SourceParent { id }, parent.as_str());
                    }
                },
                Slot::SourceParent { id: file } => {
                    let parent = parent_path(after.as_str());
                    return self.seek(
                        job,
                        Slot::TargetParent { id: file, old_parent: Some(id) },
                        parent.as_str(),
                    );
                },
                Slot::TargetParent { id: file, old_parent: Some(old_parent) } => (
                    Call::Move {
                        id: file,
                        name: base_name(after.as_str()),
                        old_parent,
                        new_parent: id,
                    },
                    Phase::Move,
                ),
                Slot::TargetParent { id: file, old_parent: None } => (
                    Call::GetFile { id: file.clone() },
                    Phase::Untrash { id: file, parent: id },
                ),
            },
        };
        ask(call, job, phase)
    }

    fn seek_next(
        &mut self,
        job: DriveJob,
        slot: Slot<String>,
        folder: String,
        chain: Vec<String>,
        answer: DriveAnswer,
    ) -> (step: DriveNext)
        requires
            old(self).wf(),
        ensures
            final(self).wf(),
            (final(self)@, step@) == old(self)@.seek_next(
                job@,
                slot@,
                folder@,
                views(chain@),
                answer@,
            ),
    {
        let files = match answer {
            Answer::Files(Some(files)) => files,
            _ => {
                return DriveStep::Reply(gone(&job));
            },
        };
        let names = show(folder.as_str(), &files);
        self.remember(folder.as_str(), &names, &files);
        let mut chain = chain;
        let ghost c = views(chain@);
        assert(c.len() == chain@.len());
        if chain.len() == 0 {
            return DriveStep::Reply(gone(&job));
        }
        let first = chain.remove(0);
        proof {
            assert(first@ == c[0]);
            assert(views(chain@) =~= c.drop_first());
        }
        match self.paths.get(first.as_str()) {
            Some(id) => {
                if chain.len() == 0 {
                    self.found(job, slot, id)
                } else {
                    let call = list_call(first.as_str(), id);
                    ask(call, job, Phase::Seek { slot, folder: first, chain })
                }
            },
            None => DriveStep::Reply(gone(&job)),
        }
    }

    /// Starts a job.
    pub fn start(&mut self, job: DriveJob) -> (step: DriveNext)
        requires
            old(self).wf(),
        ensures
            final(self).wf(),
            (final(self)@, step@) == old(self)@.start(job@),
    {
        let path = match &job {
            Job::Stat { path } => {
                if same(path.as_str(), "/.Trash") || same(path.as_str(), "/") {
                    return DriveStep::Reply(Outcome::Stat(Some(self.dir_stat())));
                }
                path.clone()
            },
            Job::ReadDir { path } => {
                if same(path.as_str(), "/.Trash") {
                    return ask(Call::ListTrashed, job, Phase::List);
                }
                path.clone()
            },
            Job::DownloadTo { path, .. } => path.clone(),
            Job::ReadAt { path, .. } => path.clone(),
            Job::Write { path } => path.clone(),
            Job::CreateFile { path } => parent_path(path.as_str()),
            Job::CreateDir { path } => parent_path(path.as_str()),
            Job::Delete { path } => path.clone(),
            Job::Rename { before, .. } => before.clone(),
        };
        self.seek(job, Slot::Subject, path.as_str())
    }

    /// Goes on with a job.
    pub fn resume(&mut self, waiting: DriveWaiting, answer: DriveAnswer) -> (step: DriveNext)
        requires
            old(self).wf(),
            waiting@.job.wf(),
            answers_well(answer@),
        ensures
            final(self).wf(),
            (final(self)@, step@) == old(self)@.next(waiting@, answer@),
    {
        let Waiting { job, phase } = waiting;
        match phase {
            Phase::Seek { slot, folder, chain } => self.seek_next(job, slot, folder, chain, answer),
            Phase::Get { id } => match (&job, answer) {
                (Job::Stat { .. }, Answer::File(Some(f))) => DriveStep::Reply(
                    Outcome::Stat(Some(drive_file_to_stat(&f, self.uid, self.gid))),
                ),
                (Job::DownloadTo { max_bytes, .. }, Answer::File(Some(f))) => DriveStep::Reply(
                    Outcome::Download(
                        if f.size_bytes() > *max_bytes {
                            None
                        } else {
                            Some(id)
                        },
                    ),
                ),
                _ => DriveStep::Reply(gone(&job)),
            },
            Phase::List => match (&job, answer) {
                (Job::ReadDir { path }, Answer::Files(Some(files))) => {
                    proof {
                        let fs = models(files@);
                        assert(answers_well(SpecAnswer::Files(Some(fs))));
                        assert forall|i: int| 0 <= i < fs.len() implies (#[trigger] fs[i]).wf() by {
                        }
                    }
                    let names = show(path.as_str(), &files);
                    self.remember(path.as_str(), &names, &files);
                    let shown = self.stats_of(path.as_str(), names, &files);
                    DriveStep::Reply(Outcome::Listing(shown))
                },
                _ => DriveStep::Reply(gone(&job)),
            },
            Phase::Content { id } => match (&job, answer) {
                (Job::ReadAt { offset, size, .. }, Answer::Bytes(Some(b))) => DriveStep::Reply(
                    Outcome::Bytes(cut_out(b, *offset, *size)),
                ),
                (Job::ReadAt { .. }, Answer::Bytes(None)) => ask(
                    Call::GetFile { id },
                    job,
                    Phase::Native,
                ),
                _ => DriveStep::Reply(gone(&job)),
            },
            Phase::Native => match (&job, answer) {
                (Job::ReadAt { .. }, Answer::File(Some(f))) => {
                    if f.is_native() {
                        let nothing: Vec<u8> = Vec::new();
                        assert(nothing@ =~= Seq::<u8>::empty());
                        DriveStep::Reply(Outcome::Bytes(nothing))
                    } else {
                        DriveStep::Reply(gone(&job))
                    }
                },
                _ => DriveStep::Reply(gone(&job)),
            },
            Phase::Make => match (job, answer) {
                (Job::CreateFile { path }, Answer::File(Some(f))) => {
                    self.paths.insert(path, f.id);
                    DriveStep::Reply(Outcome::Done)
                },
                (Job::CreateDir { path }, Answer::File(Some(f))) => {
                    self.paths.insert(path, f.id);
                    DriveStep::Reply(Outcome::Done)
                },
                (job, _) => DriveStep::Reply(gone(&job)),
            },
            Phase::Remove => match (&job, answer) {
                (Job::Delete { path }, Answer::Done(true)) => {
                    proof {
                        lemma_root_stays(self@.ids, path@);
                    }
                    self.paths.remove_prefix(path.as_str());
                    DriveStep::Reply(Outcome::Done)
                },
                _ => DriveStep::Reply(gone(&job)),
            },
            Phase::Untrash { id, parent } => match (&job, answer) {
                (Job::Rename { after, .. }, Answer::File(Some(f))) => {
                    let call = Call::Restore {
                        id: id.clone(),
                        old_parents: join_parents(&f),
                        parent,
                        name: base_name(after.as_str()),
                    };
                    ask(call, job, Phase::Restore { id })
                },
                _ => DriveStep::Reply(gone(&job)),
            },
            Phase::Restore { id } => match (job, answer) {
                (Job::Rename { before, after }, Answer::Done(true)) => {
                    proof {
                        lemma_root_stays(self@.ids, before@);
                    }
                    self.paths.remove_prefix(before.as_str());
                    self.paths.insert(after, id);
                    DriveStep::Reply(Outcome::Done)
                },
                (job, _) => DriveStep::Reply(gone(&job)),
            },
            Phase::Move => match (&job, answer) {
                (Job::Rename { before, after }, Answer::Done(true)) => {
                    proof {
                        lemma_root_not_moved(self@.ids, before@, after@);
                    }
                    self.paths.rename_prefix(before.as_str(), after.as_str());
                    DriveStep::Reply(Outcome::Done)
                },
                _ => DriveStep::Reply(gone(&job)),
            },
        }
    }
}

/// How long the answer to a question about the storage quota is good, in seconds.
pub const STATFS_TTL_SECS: u64 = 60;

/// The last answer to a question about the storage quota.
pub struct QuotaCache {
    pub quota: Option<(u64, u64)>,
}

impl QuotaCache {
    /// The last answer, where it is still good at its age.
    pub fn get(&self, age_secs: u64) -> (r: Option<(u64, u64)>)
        ensures
            r == (if age_secs < STATFS_TTL_SECS {
                self.quota
            } else {
                None
            }),
    {
        if age_secs < STATFS_TTL_SECS {
            self.quota
        } else {
            None
        }
    }

    /// Takes a new answer in; a failure leaves the last one.
    pub fn put(&mut self, answer: Option<(u64, u64)>) -> (r: Option<(u64, u64)>)
        ensures
            r == answer,
            final(self).quota == (if answer is Some {
                answer
            } else {
                old(self).quota
            }),
    {
        if answer.is_some() {
            self.quota = answer;
        }
        answer
    }
}

/// Tells whether a path may be deleted or moved.
pub fn can_move(path: &str) -> (r: bool)
    ensures
        r == is_movable(path@),
{
    !path.is_empty() && !same(path, "/")
}

proof fn lemma_root_stays(m: Map<Text, Text>, path: Text)
    requires
        is_movable(path),
        m.contains_key(root()),
    ensures
        removed(m, path).contains_key(root()),
{
    reveal_strlit("/");
    if starts(root(), path) {
        assert(path =~= root());
    }
}

proof fn lemma_root_not_moved(m: Map<Text, Text>, before: Text, after: Text)
    requires
        is_movable(before),
        m.contains_key(root()),
    ensures
        moved(m, before, after).contains_key(root()),
{
    reveal_strlit("/");
}

} // verus!
