//! What the backend does with files on Google Drive.
//!
//! Every job starts with a step: an outcome, or one call of the API together with what waits
//! for its answer. A state and an answer together fix the next state and the next step.
//!
//! A virtual directory `/.Trash` appears at the root. Deleting a file moves it to the trash,
//! and deleting it there removes it for good. Moving a file out of the trash restores it.
//!
//! Files in Google's own formats are shown as empty files, and read as such: they have no
//! content that could be downloaded.

use vstd::prelude::*;

use crate::backend::gdrive::client::{models, parent_list, DriveFile, FileModel, Text};
use crate::backend::gdrive::paths::{base_text, child_text, inserted, inside_trash, moved};
use crate::backend::gdrive::paths::{lemma_parent_shorter, parent_text, removed, root, trash_id};
use crate::backend::gdrive::paths::{trash_names, trash_path};
use crate::stat::{StatData, DIRECTORY_MODE};
use crate::text::{opt_string, views};

verus! {

/// A call of the API.
#[allow(inconsistent_fields)]
pub enum Call<S> {
    /// List what is in a folder and not in the trash. Answer: `Files`.
    ListChildren { folder: S },
    /// List what is in the trash. Answer: `Files`.
    ListTrashed,
    /// Get a file's metadata. Answer: `File`.
    GetFile { id: S },
    /// Get a file's content. Answer: `Bytes`.
    Download { id: S },
    /// Create an empty file. Answer: `File`.
    CreateFile { parent: S, name: S },
    /// Create a folder. Answer: `File`.
    CreateFolder { parent: S, name: S },
    /// Move a file to the trash. Answer: `Done`.
    Trash { id: S },
    /// Delete a file for good. Answer: `Done`.
    Delete { id: S },
    /// Take a file out of the trash and of its parents, into a folder. Answer: `Done`.
    Restore { id: S, old_parents: S, parent: S, name: S },
    /// Rename a file and move it from one folder to another. Answer: `Done`.
    Move { id: S, name: S, old_parent: S, new_parent: S },
}

/// What came of a call; none and false are failures.
pub enum Answer<F, L, B> {
    Files(Option<L>),
    File(Option<F>),
    Bytes(Option<B>),
    Done(bool),
}

/// What is to be done.
#[allow(inconsistent_fields)]
pub enum Job<S> {
    Stat { path: S },
    ReadDir { path: S },
    DownloadTo { path: S, max_bytes: u64 },
    ReadAt { path: S, offset: u64, size: u32 },
    Write { path: S },
    CreateFile { path: S },
    CreateDir { path: S },
    Delete { path: S },
    Rename { before: S, after: S },
}

/// What an id is looked for as.
pub enum Slot<S> {
    /// What the job is about.
    Subject,
    /// The folder that the file with this id leaves.
    SourceParent { id: S },
    /// The folder that the file with this id enters; `old_parent` is the one it leaves, none
    /// where it leaves the trash.
    TargetParent { id: S, old_parent: Option<S> },
}

/// How far a job is.
#[allow(inconsistent_fields)]
pub enum Phase<S, N> {
    /// The listing of `folder` was asked for, to find the first path of `chain` in it.
    Seek { slot: Slot<S>, folder: S, chain: N },
    /// The metadata of the file with this id was asked for.
    Get { id: S },
    /// The listing of the directory was asked for.
    List,
    /// The content of the file with this id was asked for.
    Content { id: S },
    /// The metadata of a file whose content could not be had was asked for.
    Native,
    /// The new file was asked for.
    Make,
    /// The deletion was asked for.
    Remove,
    /// The metadata of the trashed file was asked for, before it goes to a folder.
    Untrash { id: S, parent: S },
    /// The restoration was asked for.
    Restore { id: S },
    /// The move was asked for.
    Move,
}

/// A job that waits for the answer to a call.
pub struct Waiting<S, N> {
    pub job: Job<S>,
    pub phase: Phase<S, N>,
}

/// What a job comes to.
pub enum Outcome<S, B, L> {
    /// The attributes of the path; none where it is absent or cannot be found out.
    Stat(Option<StatData>),
    /// The names in the directory and their attributes.
    Listing(L),
    /// The id of the file to download; none where it is too large or cannot be found.
    Download(Option<S>),
    /// The id of the file to upload the content to.
    Upload(S),
    Bytes(B),
    Done,
    Failed,
}

/// What a job comes to next.
pub enum DriveStep<S, N, B, L> {
    Ask(Call<S>, Waiting<S, N>),
    Reply(Outcome<S, B, L>),
}

// ---------------------------------------------------------------------------
// Views
// ---------------------------------------------------------------------------

pub type Stats = Seq<(Text, StatData)>;

pub type DriveCall = Call<String>;

pub type DriveAnswer = Answer<DriveFile, Vec<DriveFile>, Vec<u8>>;

pub type DriveJob = Job<String>;

pub type DriveWaiting = Waiting<String, Vec<String>>;

pub type DriveOutcome = Outcome<String, Vec<u8>, Vec<(String, StatData)>>;

pub type DriveNext = DriveStep<String, Vec<String>, Vec<u8>, Vec<(String, StatData)>>;

pub type SpecAnswer = Answer<FileModel, Seq<FileModel>, Seq<u8>>;

pub type SpecWaiting = Waiting<Text, Seq<Text>>;

pub type SpecNext = DriveStep<Text, Seq<Text>, Seq<u8>, Stats>;

/// The view of names and attributes.
pub open spec fn stats(v: Seq<(String, StatData)>) -> Stats {
    v.map_values(|e: (String, StatData)| (e.0@, e.1))
}

impl View for Call<String> {
    type V = Call<Text>;

    open spec fn view(&self) -> Call<Text> {
        match *self {
            Call::ListChildren { folder } => Call::ListChildren { folder: folder@ },
            Call::ListTrashed => Call::ListTrashed,
            Call::GetFile { id } => Call::GetFile { id: id@ },
            Call::Download { id } => Call::Download { id: id@ },
            Call::CreateFile { parent, name } => Call::CreateFile { parent: parent@, name: name@ },
            Call::CreateFolder { parent, name } => Call::CreateFolder {
                parent: parent@,
                name: name@,
            },
            Call::Trash { id } => Call::Trash { id: id@ },
            Call::Delete { id } => Call::Delete { id: id@ },
            Call::Restore { id, old_parents, parent, name } => Call::Restore {
                id: id@,
                old_parents: old_parents@,
                parent: parent@,
                name: name@,
            },
            Call::Move { id, name, old_parent, new_parent } => Call::Move {
                id: id@,
                name: name@,
                old_parent: old_parent@,
                new_parent: new_parent@,
            },
        }
    }
}

impl View for Answer<DriveFile, Vec<DriveFile>, Vec<u8>> {
    type V = Answer<FileModel, Seq<FileModel>, Seq<u8>>;

    open spec fn view(&self) -> Answer<FileModel, Seq<FileModel>, Seq<u8>> {
        match *self {
            Answer::Files(Some(l)) => Answer::Files(Some(models(l@))),
            Answer::Files(None) => Answer::Files(None),
            Answer::File(Some(f)) => Answer::File(Some(f@)),
            Answer::File(None) => Answer::File(None),
            Answer::Bytes(Some(b)) => Answer::Bytes(Some(b@)),
            Answer::Bytes(None) => Answer::Bytes(None),
            Answer::Done(b) => Answer::Done(b),
        }
    }
}

impl View for Job<String> {
    type V = Job<Text>;

    open spec fn view(&self) -> Job<Text> {
        match *self {
            Job::Stat { path } => Job::Stat { path: path@ },
            Job::ReadDir { path } => Job::ReadDir { path: path@ },
            Job::DownloadTo { path, max_bytes } => Job::DownloadTo { path: path@, max_bytes },
            Job::ReadAt { path, offset, size } => Job::ReadAt { path: path@, offset, size },
            Job::Write { path } => Job::Write { path: path@ },
            Job::CreateFile { path } => Job::CreateFile { path: path@ },
            Job::CreateDir { path } => Job::CreateDir { path: path@ },
            Job::Delete { path } => Job::Delete { path: path@ },
            Job::Rename { before, after } => Job::Rename { before: before@, after: after@ },
        }
    }
}

impl View for Slot<String> {
    type V = Slot<Text>;

    open spec fn view(&self) -> Slot<Text> {
        match *self {
            Slot::Subject => Slot::Subject,
            Slot::SourceParent { id } => Slot::SourceParent { id: id@ },
            Slot::TargetParent { id, old_parent } => Slot::TargetParent {
                id: id@,
                old_parent: opt_string(old_parent),
            },
        }
    }
}

impl View for Waiting<String, Vec<String>> {
    type V = Waiting<Text, Seq<Text>>;

    open spec fn view(&self) -> Waiting<Text, Seq<Text>> {
        Waiting {
            job: self.job@,
            phase: match self.phase {
                Phase::Seek { slot, folder, chain } => Phase::Seek {
                    slot: slot@,
                    folder: folder@,
                    chain: views(chain@),
                },
                Phase::Get { id } => Phase::Get { id: id@ },
                Phase::List => Phase::List,
                Phase::Content { id } => Phase::Content { id: id@ },
                Phase::Native => Phase::Native,
                Phase::Make => Phase::Make,
                Phase::Remove => Phase::Remove,
                Phase::Untrash { id, parent } => Phase::Untrash { id: id@, parent: parent@ },
                Phase::Restore { id } => Phase::Restore { id: id@ },
                Phase::Move => Phase::Move,
            },
        }
    }
}

impl View for Outcome<String, Vec<u8>, Vec<(String, StatData)>> {
    type V = Outcome<Text, Seq<u8>, Stats>;

    open spec fn view(&self) -> Outcome<Text, Seq<u8>, Stats> {
        match *self {
            Outcome::Stat(s) => Outcome::Stat(s),
            Outcome::Listing(l) => Outcome::Listing(stats(l@)),
            Outcome::Download(Some(id)) => Outcome::Download(Some(id@)),
            Outcome::Download(None) => Outcome::Download(None),
            Outcome::Upload(id) => Outcome::Upload(id@),
            Outcome::Bytes(b) => Outcome::Bytes(b@),
            Outcome::Done => Outcome::Done,
            Outcome::Failed => Outcome::Failed,
        }
    }
}

impl View for DriveStep<String, Vec<String>, Vec<u8>, Vec<(String, StatData)>> {
    type V = DriveStep<Text, Seq<Text>, Seq<u8>, Stats>;

    open spec fn view(&self) -> DriveStep<Text, Seq<Text>, Seq<u8>, Stats> {
        match *self {
            DriveStep::Ask(c, w) => DriveStep::Ask(c@, w@),
            DriveStep::Reply(o) => DriveStep::Reply(o@),
        }
    }
}

// ---------------------------------------------------------------------------
// States
// ---------------------------------------------------------------------------

/// What the backend knows.
#[verifier::ext_equal]
pub struct DriveModel {
    /// The ids of paths.
    pub ids: Map<Text, Text>,
    /// The user and the group that files belong to.
    pub uid: u32,
    pub gid: u32,
}

/// A path that may be deleted or moved: it is not that of the root.
pub open spec fn is_movable(path: Text) -> bool {
    path.len() > 0 && path != root()
}

impl Job<Text> {
    /// The job deletes or moves no root.
    pub open spec fn wf(self) -> bool {
        match self {
            Job::Delete { path } => is_movable(path),
            Job::Rename { before, after } => is_movable(before),
            _ => true,
        }
    }

    /// The path whose id is looked for first.
    pub open spec fn subject(self) -> Text {
        match self {
            Job::Stat { path } => path,
            Job::ReadDir { path } => path,
            Job::DownloadTo { path, .. } => path,
            Job::ReadAt { path, .. } => path,
            Job::Write { path } => path,
            Job::CreateFile { path } => parent_text(path),
            Job::CreateDir { path } => parent_text(path),
            Job::Delete { path } => path,
            Job::Rename { before, .. } => before,
        }
    }

    /// What a job comes to whose file cannot be found.
    pub open spec fn gone(self) -> Outcome<Text, Seq<u8>, Stats> {
        match self {
            Job::Stat { .. } => Outcome::Stat(None),
            Job::DownloadTo { .. } => Outcome::Download(None),
            _ => Outcome::Failed,
        }
    }
}

/// The children of a folder as paths and ids.
pub open spec fn child_ids(folder: Text, names: Seq<Text>, files: Seq<FileModel>) -> Seq<
    (Text, Text),
> {
    Seq::new(files.len(), |i: int| (child_text(folder, names[i]), files[i].id))
}

/// The names that the files of a listing of `folder` are shown under.
pub open spec fn shown_names(folder: Text, files: Seq<FileModel>) -> Seq<Text> {
    if folder == trash_path() {
        trash_names(files)
    } else {
        Seq::new(files.len(), |i: int| files[i].name)
    }
}

/// The bytes of `content` from `offset` on, at most `size`.
pub open spec fn slice(content: Seq<u8>, offset: u64, size: u32) -> Seq<u8> {
    let start = if offset < content.len() {
        offset as int
    } else {
        content.len() as int
    };
    let end = if start + size < content.len() {
        start + size
    } else {
        content.len() as int
    };
    content.subrange(start, end)
}

/// How many lookups are to come after one.
pub open spec fn slot_rank(slot: Slot<Text>) -> nat {
    match slot {
        Slot::Subject => 2,
        Slot::SourceParent { .. } => 1,
        Slot::TargetParent { .. } => 0,
    }
}

/// The root comes before every path, and every path before those it is a part of.
pub open spec fn path_rank(path: Text) -> nat {
    if path == root() {
        0
    } else {
        path.len() + 1
    }
}

impl DriveModel {
    /// The id of the root is known.
    pub open spec fn wf(self) -> bool {
        self.ids.contains_key(root())
    }

    /// The id of a path, where no listing is needed to tell it.
    pub open spec fn known_id(self, path: Text) -> Option<Text> {
        if path == trash_path() {
            Some(trash_id())
        } else if self.ids.contains_key(path) {
            Some(self.ids[path])
        } else {
            None
        }
    }

    /// The nearest directory above `path`, or `path` itself, whose id is known.
    pub open spec fn anchor(self, path: Text) -> Text
        decreases path_rank(path),
    {
        if self.known_id(path) is Some || path == root() {
            path
        } else {
            proof {
                lemma_parent_shorter(path);
            }
            self.anchor(parent_text(path))
        }
    }

    /// The paths from below the anchor down to `path`, whose ids have to be found.
    pub open spec fn chain(self, path: Text) -> Seq<Text>
        decreases path_rank(path),
    {
        if self.known_id(path) is Some || path == root() {
            Seq::empty()
        } else {
            proof {
                lemma_parent_shorter(path);
            }
            self.chain(parent_text(path)).push(path)
        }
    }

    /// The attributes of the root and of the trash.
    pub open spec fn dir_stat(self) -> StatData {
        StatData {
            size: 0,
            uid: self.uid,
            gid: self.gid,
            perm: DIRECTORY_MODE,
            atime: 0,
            mtime: 0,
        }
    }

    /// The state once the files of a listing of `folder` are known.
    pub open spec fn listed(self, folder: Text, files: Seq<FileModel>) -> DriveModel {
        DriveModel {
            ids: inserted(self.ids, child_ids(folder, shown_names(folder, files), files)),
            ..self
        }
    }

    /// What a listing of `folder` shows; the root also holds the trash.
    pub open spec fn listing(self, folder: Text, files: Seq<FileModel>) -> Stats {
        let shown = Seq::new(
            files.len(),
            |i: int| (shown_names(folder, files)[i], files[i].stat(self.uid, self.gid)),
        );
        if folder == root() {
            shown.push((".Trash"@, self.dir_stat()))
        } else {
            shown
        }
    }

    pub open spec fn replies(self, o: Outcome<Text, Seq<u8>, Stats>) -> (DriveModel, SpecNext) {
        (self, DriveStep::Reply(o))
    }

    pub open spec fn asks(self, c: Call<Text>, job: Job<Text>, phase: Phase<Text, Seq<Text>>) -> (
        DriveModel,
        SpecNext,
    ) {
        (self, DriveStep::Ask(c, Waiting { job, phase }))
    }

    /// Asks for the listing of a folder.
    pub open spec fn list_call(folder: Text, id: Text) -> Call<Text> {
        if folder == trash_path() {
            Call::ListTrashed
        } else {
            Call::ListChildren { folder: id }
        }
    }

    /// Looks for the id of a path: where it is not known, the directories above it are listed,
    /// from the nearest whose id is known.
    pub open spec fn seek(self, job: Job<Text>, slot: Slot<Text>, path: Text) -> (
        DriveModel,
        SpecNext,
    )
        decreases slot_rank(slot), 1nat,
    {
        let folder = self.anchor(path);
        let chain = self.chain(path);
        match self.known_id(folder) {
            Some(id) => if chain.len() == 0 {
                self.found(job, slot, id)
            } else {
                self.asks(Self::list_call(folder, id), job, Phase::Seek { slot, folder, chain })
            },
            None => self.replies(job.gone()),
        }
    }

    /// Goes on with the id that was looked for.
    pub open spec fn found(self, job: Job<Text>, slot: Slot<Text>, id: Text) -> (
        DriveModel,
        SpecNext,
    )
        decreases slot_rank(slot), 0nat,
    {
        match job {
            Job::Stat { .. } => self.asks(Call::GetFile { id }, job, Phase::Get { id }),
            Job::DownloadTo { .. } => self.asks(Call::GetFile { id }, job, Phase::Get { id }),
            Job::ReadDir { .. } => self.asks(Call::ListChildren { folder: id }, job, Phase::List),
            Job::ReadAt { .. } => self.asks(Call::Download { id }, job, Phase::Content { id }),
            Job::Write { .. } => self.replies(Outcome::Upload(id)),
            Job::CreateFile { path } => self.asks(
                Call::CreateFile { parent: id, name: base_text(path) },
                job,
                Phase::Make,
            ),
            Job::CreateDir { path } => self.asks(
                Call::CreateFolder { parent: id, name: base_text(path) },
                job,
                Phase::Make,
            ),
            Job::Delete { path } => self.asks(
                if inside_trash(path) {
                    Call::Delete { id }
                } else {
                    Call::Trash { id }
                },
                job,
                Phase::Remove,
            ),
            Job::Rename { before, after } => match slot {
                Slot::Subject => if inside_trash(before) {
                    self.seek(job, Slot::TargetParent { id, old_parent: None }, parent_text(after))
                } else {
                    self.seek(job, Slot::SourceParent { id }, parent_text(before))
                },
                Slot::SourceParent { id: file } => self.seek(
                    job,
                    Slot::TargetParent { id: file, old_parent: Some(id) },
                    parent_text(after),
                ),
                Slot::TargetParent { id: file, old_parent } => match old_parent {
                    Some(old_parent) => self.asks(
                        Call::Move { id: file, name: base_text(after), old_parent, new_parent: id },
                        job,
                        Phase::Move,
                    ),
                    None => self.asks(
                        Call::GetFile { id: file },
                        job,
                        Phase::Untrash { id: file, parent: id },
                    ),
                },
            },
        }
    }

    /// Goes on once the folder above the first path of the chain was listed.
    pub open spec fn seek_next(
        self,
        job: Job<Text>,
        slot: Slot<Text>,
        folder: Text,
        chain: Seq<Text>,
        a: SpecAnswer,
    ) -> (DriveModel, SpecNext) {
        match a {
            Answer::Files(Some(files)) => {
                let s = self.listed(folder, files);
                if chain.len() > 0 && s.ids.contains_key(chain[0]) {
                    let id = s.ids[chain[0]];
                    if chain.len() == 1 {
                        s.found(job, slot, id)
                    } else {
                        s.asks(
                            Self::list_call(chain[0], id),
                            job,
                            Phase::Seek { slot, folder: chain[0], chain: chain.drop_first() },
                        )
                    }
                } else {
                    s.replies(job.gone())
                }
            },
            _ => self.replies(job.gone()),
        }
    }

    /// Starts a job.
    pub open spec fn start(self, job: Job<Text>) -> (DriveModel, SpecNext) {
        match job {
            Job::Stat { path } => if path == trash_path() || path == root() {
                self.replies(Outcome::Stat(Some(self.dir_stat())))
            } else {
                self.seek(job, Slot::Subject, path)
            },
            Job::ReadDir { path } => if path == trash_path() {
                self.asks(Call::ListTrashed, job, Phase::List)
            } else {
                self.seek(job, Slot::Subject, path)
            },
            _ => self.seek(job, Slot::Subject, job.subject()),
        }
    }

    /// What a job does on an answer.
    pub open spec fn next(self, w: SpecWaiting, a: SpecAnswer) -> (DriveModel, SpecNext) {
        let job = w.job;
        match w.phase {
            Phase::Seek { slot, folder, chain } => self.seek_next(job, slot, folder, chain, a),
            Phase::Get { id } => match (job, a) {
                (Job::Stat { .. }, Answer::File(Some(f))) => self.replies(
                    Outcome::Stat(Some(f.stat(self.uid, self.gid))),
                ),
                (Job::DownloadTo { max_bytes, .. }, Answer::File(Some(f))) => self.replies(
                    Outcome::Download(
                        if f.size_bytes() > max_bytes {
                            None
                        } else {
                            Some(id)
                        },
                    ),
                ),
                _ => self.replies(job.gone()),
            },
            Phase::List => match (job, a) {
                (Job::ReadDir { path }, Answer::Files(Some(files))) => self.listed(
                    path,
                    files,
                ).replies(Outcome::Listing(self.listing(path, files))),
                _ => self.replies(job.gone()),
            },
            Phase::Content { id } => match (job, a) {
                (Job::ReadAt { offset, size, .. }, Answer::Bytes(Some(b))) => self.replies(
                    Outcome::Bytes(slice(b, offset, size)),
                ),
                (Job::ReadAt { .. }, Answer::Bytes(None)) => self.asks(
                    Call::GetFile { id },
                    job,
                    Phase::Native,
                ),
                _ => self.replies(job.gone()),
            },
            Phase::Native => match (job, a) {
                (Job::ReadAt { .. }, Answer::File(Some(f))) => self.replies(
                    if f.is_native() {
                        Outcome::Bytes(Seq::empty())
                    } else {
                        job.gone()
                    },
                ),
                _ => self.replies(job.gone()),
            },
            Phase::Make => match (job, a) {
                (Job::CreateFile { path }, Answer::File(Some(f))) => self.with_id(
                    path,
                    f.id,
                ).replies(Outcome::Done),
                (Job::CreateDir { path }, Answer::File(Some(f))) => self.with_id(
                    path,
                    f.id,
                ).replies(Outcome::Done),
                _ => self.replies(job.gone()),
            },
            Phase::Remove => match (job, a) {
                (Job::Delete { path }, Answer::Done(true)) => self.without(path).replies(
                    Outcome::Done,
                ),
                _ => self.replies(job.gone()),
            },
            Phase::Untrash { id, parent } => match (job, a) {
                (Job::Rename { before, after }, Answer::File(Some(f))) => self.asks(
                    Call::Restore { id, old_parents: parent_list(f), parent, name: base_text(after) },
                    job,
                    Phase::Restore { id },
                ),
                _ => self.replies(job.gone()),
            },
            Phase::Restore { id } => match (job, a) {
                (Job::Rename { before, after }, Answer::Done(true)) => self.without(before).with_id(
                    after,
                    id,
                ).replies(Outcome::Done),
                _ => self.replies(job.gone()),
            },
            Phase::Move => match (job, a) {
                (Job::Rename { before, after }, Answer::Done(true)) => (DriveModel {
                    ids: moved(self.ids, before, after),
                    ..self
                }).replies(Outcome::Done),
                _ => self.replies(job.gone()),
            },
        }
    }

    pub open spec fn with_id(self, path: Text, id: Text) -> DriveModel {
        DriveModel { ids: self.ids.insert(path, id), ..self }
    }

    pub open spec fn without(self, path: Text) -> DriveModel {
        DriveModel { ids: removed(self.ids, path), ..self }
    }
}

/// The times of change in an answer can be counted.
pub open spec fn answers_well(a: SpecAnswer) -> bool {
    match a {
        Answer::Files(Some(files)) => forall|i: int|
            0 <= i < files.len() ==> (#[trigger] files[i]).wf(),
        Answer::File(Some(f)) => f.wf(),
        _ => true,
    }
}

} // verus!
