//! What the command lines mean.

pub mod gdrive;
pub mod ssh;

use vstd::prelude::*;

use crate::path::{join, joined, push_path, pushed};
use crate::text::opt_text;

verus! {

pub type Text = Seq<char>;

/// The user's cache directory: on macOS in the home directory; elsewhere where the
/// environment says, or in the home directory. `/tmp` where no home directory is known.
pub open spec fn cache_base(macos: bool, home: Option<Text>, xdg_cache_home: Option<Text>) -> Text {
    if macos {
        joined(
            match home {
                Some(h) => h,
                None => "/tmp"@,
            },
            "Library/Caches"@,
        )
    } else {
        match (xdg_cache_home, home) {
            (Some(x), _) => x,
            (None, Some(h)) => joined(h, ".cache"@),
            (None, None) => "/tmp"@,
        }
    }
}

/// Finds the user's cache directory.
pub fn cache_dir(macos: bool, home: Option<&str>, xdg_cache_home: Option<&str>) -> (r: String)
    ensures
        r@ == cache_base(macos, opt_text(home), opt_text(xdg_cache_home)),
{
    if macos {
        join(
            match home {
                Some(h) => h,
                None => "/tmp",
            },
            "Library/Caches",
        )
    } else {
        match (xdg_cache_home, home) {
            (Some(x), _) => x.to_owned(),
            (None, Some(h)) => join(h, ".cache"),
            (None, None) => "/tmp".to_owned(),
        }
    }
}

/// A path from the root: `path` itself where it is absolute, else below the working directory.
pub fn absolute_path(path: &str, cwd: Option<&str>) -> (r: String)
    ensures
        r@ == pushed(
            match cwd {
                Some(d) => d@,
                None => "."@,
            },
            path@,
        ),
{
    push_path(
        match cwd {
            Some(d) => d,
            None => ".",
        },
        path,
    )
}

/// How many worker threads there are: as many as asked for, else four for each core, of which
/// there are four where their number is not known.
pub fn worker_threads(parallel: Option<usize>, cores: Option<usize>) -> (n: usize)
    requires
        parallel is None ==> (cores matches Some(c) ==> 4 * c <= usize::MAX),
    ensures
        n == (match (parallel, cores) {
            (Some(p), _) => p as int,
            (None, Some(c)) => 4 * c,
            (None, None) => 16,
        }),
{
    match (parallel, cores) {
        (Some(p), _) => p,
        (None, Some(c)) => c * 4,
        (None, None) => 16,
    }
}

/// Caches go where the system keeps them: on macOS below the home directory, elsewhere where the
/// environment says, else below the home directory; and to `/tmp` where none is known.
pub proof fn law_cache_directories(home: Text, xdg: Text, any: Option<Text>)
    ensures
        cache_base(true, Some(home), any) == joined(home, "Library/Caches"@),
        cache_base(true, None, any) == joined("/tmp"@, "Library/Caches"@),
        cache_base(false, any, Some(xdg)) == xdg,
        cache_base(false, Some(home), None) == joined(home, ".cache"@),
        cache_base(false, None, None) == "/tmp"@,
{
}

} // verus!
