//! The mount itself.

use vstd::prelude::*;

use crate::text::{cat2, opt_text};

pub use crate::cli::absolute_path;

verus! {

pub type Text = Seq<char>;

/// An option of the mount.
pub enum MountOption<S> {
    FsName(S),
    AutoUnmount,
    DefaultPermissions,
    Custom(S),
}

impl View for MountOption<String> {
    type V = MountOption<Text>;

    open spec fn view(&self) -> MountOption<Text> {
        match *self {
            MountOption::FsName(s) => MountOption::FsName(s@),
            MountOption::AutoUnmount => MountOption::AutoUnmount,
            MountOption::DefaultPermissions => MountOption::DefaultPermissions,
            MountOption::Custom(s) => MountOption::Custom(s@),
        }
    }
}

/// The view of options.
pub open spec fn options(v: Seq<MountOption<String>>) -> Seq<MountOption<Text>> {
    v.map_values(|o: MountOption<String>| o@)
}

/// The options of a mount. macOS treats the volume as a local disk of a given name, and keeps
/// its own files off it.
pub open spec fn option_list(fs_name: Text, volume: Text, macos: bool) -> Seq<MountOption<Text>> {
    let all = seq![
        MountOption::FsName(fs_name),
        MountOption::AutoUnmount,
        MountOption::DefaultPermissions,
    ];
    if macos {
        all + seq![
            MountOption::Custom("local"@),
            MountOption::Custom("noappledouble"@),
            MountOption::Custom("noapplexattr"@),
            MountOption::Custom("volname="@ + volume),
        ]
    } else {
        all
    }
}

/// The name of the volume: that of the mount point, where it has one.
pub open spec fn volume_name(mount_name: Option<Text>, fs_name: Text) -> Text {
    match mount_name {
        Some(n) => n,
        None => fs_name,
    }
}

/// The options of a mount on a directory; `mount_name` is the name of the directory, where it
/// has one.
pub fn mount_options(fs_name: &str, mount_name: Option<&str>, macos: bool) -> (r: Vec<
    MountOption<String>,
>)
    ensures
        options(r@) == option_list(
            fs_name@,
            volume_name(opt_text(mount_name), fs_name@),
            macos,
        ),
{
    let volume = match mount_name {
        Some(n) => n,
        None => fs_name,
    };
    let mut r: Vec<MountOption<String>> = Vec::new();
    r.push(MountOption::FsName(fs_name.to_owned()));
    r.push(MountOption::AutoUnmount);
    r.push(MountOption::DefaultPermissions);
    if macos {
        r.push(MountOption::Custom("local".to_owned()));
        r.push(MountOption::Custom("noappledouble".to_owned()));
        r.push(MountOption::Custom("noapplexattr".to_owned()));
        r.push(MountOption::Custom(cat2("volname=", volume)));
    }
    assert(options(r@) =~= option_list(fs_name@, volume@, macos));
    r
}

/// What a process is after a fork.
#[derive(Clone, Copy, Debug, PartialEq, Eq, Structural)]
pub enum ForkRole {
    Failed,
    Child,
    Parent,
}

/// Tells what a process is by what the fork returned.
pub fn fork_role(pid: i32) -> (r: ForkRole)
    ensures
        r == (if pid == -1 {
            ForkRole::Failed
        } else if pid == 0 {
            ForkRole::Child
        } else {
            ForkRole::Parent
        }),
{
    if pid == -1 {
        ForkRole::Failed
    } else if pid == 0 {
        ForkRole::Child
    } else {
        ForkRole::Parent
    }
}

/// The exit code of the parent, by how many bytes it read from the child and which: the child
/// sends one byte, 0, once the mount is live.
pub fn parent_exit_code(n: isize, byte: u8) -> (code: i32)
    ensures
        code == 0 <==> n == 1 && byte == 0,
        code == 0 || code == 1,
{
    if n == 1 && byte == 0 {
        0
    } else {
        1
    }
}

/// How the mount loop goes on.
#[derive(Clone, Copy, Debug, PartialEq, Eq, Structural)]
pub enum LoopState {
    Running,
    /// Somebody else unmounted the filesystem.
    UnmountedExternally,
    /// A signal asks for the end.
    Unmounting,
}

/// Decides how the mount loop goes on. A filesystem that was unmounted needs no unmounting,
/// whatever signals came.
pub fn loop_state(shutdown: bool, unmounted: bool) -> (s: LoopState)
    ensures
        s == (if unmounted {
            LoopState::UnmountedExternally
        } else if shutdown {
            LoopState::Unmounting
        } else {
            LoopState::Running
        }),
{
    if unmounted {
        LoopState::UnmountedExternally
    } else if shutdown {
        LoopState::Unmounting
    } else {
        LoopState::Running
    }
}

/// Decides what is left to do when the mount loop ends: whether the session is forgotten, as
/// there is nothing to unmount any more, and whether the mount point is removed, as it was made
/// for this mount.
pub fn ending(state: LoopState, created: bool) -> (r: (bool, bool))
    ensures
        r.0 == (state == LoopState::UnmountedExternally),
        r.1 == created,
{
    (state == LoopState::UnmountedExternally, created)
}

/// Every mount has its name, goes when the process does, and has the kernel check permissions;
/// only on macOS is there more: a local volume, without files of the system's own, that is called
/// as the mount point is, or as the filesystem where that has no name.
pub proof fn law_mount_options(fs_name: Text, volume: Text, name: Text, macos: bool)
    ensures
        ({
            let all = option_list(fs_name, volume, macos);
            &&& all[0] == MountOption::FsName(fs_name)
            &&& all[1] == MountOption::<Text>::AutoUnmount
            &&& all[2] == MountOption::<Text>::DefaultPermissions
            &&& !macos ==> all.len() == 3
            &&& macos ==> all.len() == 7 && all[3] == MountOption::Custom("local"@) && all[4]
                == MountOption::Custom("noappledouble"@) && all[5] == MountOption::Custom(
                "noapplexattr"@,
            ) && all[6] == MountOption::Custom("volname="@ + volume)
        }),
        volume_name(Some(name), fs_name) == name,
        volume_name(None, fs_name) == fs_name,
{
}

} // verus!
