# remotefs

Mount remote filesystems locally using FUSE, with a local disk cache for fast repeated access.
Two programs share one library: `ssh_mount` mounts a directory over SFTP, `gdrive_mount` mounts
Google Drive.

The library is written in Verus. What it decides and computes is proved against the contracts of
its functions; what it asks of the world outside is said in values.

## Layout

- `src/fs/` is the mounted filesystem. `model.rs` says what every request does, as functions of
  the filesystem's state; `requests.rs` holds the requests; `laws.rs` what holds of them all.
  A request answers with a step: a reply, or one action to perform and a pending request to
  resume with the event that came of it (`protocol.rs`).
- `src/cache/` holds the caches: file contents on disk (`fs.rs`), attributes and listings in
  memory (`meta.rs`). `src/shared.rs` puts them together, saves and restores them.
- `src/inode.rs` maps inodes to paths, `src/lock.rs` paths to locks.
- `src/backend/sftp.rs` is what there is to decide about SFTP; `src/backend/gdrive/` is the
  Drive backend: jobs (`model.rs`, `drive.rs`, `laws.rs`), the requests of the API
  (`client.rs`), the path cache and the trash (`paths.rs`), timestamps (`time.rs`) and
  authorization (`auth.rs`).
- `src/cli/` reads the command lines, `src/mount.rs` decides about the mount itself.
- `src/text.rs`, `src/number.rs`, `src/path.rs`, `src/assoc.rs`, `src/sorting.rs`, `src/json.rs`,
  `src/digest.rs` and `src/clock.rs` are what the rest is built on.
- `app/` performs what the library asks for: FUSE, SSH, HTTP, files, threads, and the two
  command lines. It goes by the name it is started under.

Functions that call another crate, or a part of the standard library that has no contract, are
marked `external_body`. Each says in its doc comment what it calls and what its contract claims
of it.
