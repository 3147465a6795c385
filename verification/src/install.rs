//! What an install does to the files of an installation.
//!
//! Files are modelled as a map from paths to contents and permission bits.
//! An install is six operations in a fixed order; this module says what each
//! does to the files once it has succeeded, and what the files look like after
//! any number of them. An operation that is reported as failed is taken to
//! have changed nothing.
use crate::layout::Paths;
use crate::protocol::{ActionView, EventView};
use crate::text::{lemma_text_of_encoding, trimmed};
use crate::version::installed_of;
use vstd::prelude::*;
use vstd::utf8::*;

verus! {

/// The permission bits of an executable: read and execute for everyone,
/// write for the owner.
pub const EXECUTABLE_MODE: u32 = 0o755;

/// One file: what it holds, and its permission bits where they were set;
/// `None` stands for the bits that a new file gets by default.
pub struct FileModel {
    pub data: Seq<u8>,
    pub mode: Option<u32>,
}

/// The files that exist, by path.
pub type Files = Map<Seq<char>, FileModel>;

/// A binary and the configuration that goes with it.
pub struct Artifact {
    pub binary: Seq<u8>,
    pub config: Seq<u8>,
}

/// The files after `action` was answered by `event`.
///
/// A successful write creates the file, or replaces its contents and keeps its
/// mode. A successful rename moves the file and replaces what was at the
/// target. Only successful file operations change anything.
pub open spec fn effect(files: Files, action: ActionView, event: EventView) -> Files {
    match (action, event) {
        (ActionView::WriteFile { path, data }, EventView::Done { ok: true }) => files.insert(
            path,
            FileModel {
                data,
                mode: if files.dom().contains(path) {
                    files[path].mode
                } else {
                    None
                },
            },
        ),
        (ActionView::SetMode { path, mode }, EventView::Done { ok: true }) => {
            if files.dom().contains(path) {
                files.insert(path, FileModel { data: files[path].data, mode: Some(mode) })
            } else {
                files
            }
        },
        (ActionView::Rename { from, to }, EventView::Done { ok: true }) => {
            if files.dom().contains(from) {
                files.remove(from).insert(to, files[from])
            } else {
                files
            }
        },
        _ => files,
    }
}

/// What a reader of `path` gets: the contents of the file, or nothing where
/// there is no file.
pub open spec fn read(files: Files, path: Seq<char>) -> Option<Seq<u8>> {
    if files.dom().contains(path) {
        Some(files[path].data)
    } else {
        None
    }
}

/// The version that the files record as installed: the one that a reader of
/// the marker finds.
pub open spec fn installed_version(files: Files, paths: Paths) -> Option<Seq<char>> {
    installed_of(read(files, paths.marker))
}

/// Whether `a` and `b` have the same file, or both none, at `path`.
pub open spec fn same_at(a: Files, b: Files, path: Seq<char>) -> bool {
    a.dom().contains(path) == b.dom().contains(path) && (a.dom().contains(path) ==> a[path]
        == b[path])
}

/// The operation of an install that comes after `done` others: stage the
/// binary, make it executable, stage the configuration, move the binary into
/// place, move the configuration into place, record the version.
pub open spec fn operation(paths: Paths, artifact: Artifact, version: Seq<char>, done: nat)
    -> ActionView
    recommends
        done < 6,
{
    if done == 0 {
        ActionView::WriteFile { path: paths.staging_binary, data: artifact.binary }
    } else if done == 1 {
        ActionView::SetMode { path: paths.staging_binary, mode: EXECUTABLE_MODE }
    } else if done == 2 {
        ActionView::WriteFile { path: paths.staging_config, data: artifact.config }
    } else if done == 3 {
        ActionView::Rename { from: paths.staging_binary, to: paths.live_binary }
    } else if done == 4 {
        ActionView::Rename { from: paths.staging_config, to: paths.live_config }
    } else {
        ActionView::WriteFile { path: paths.marker, data: encode_utf8(version) }
    }
}

/// The files after the first `done` operations of an install have succeeded.
pub open spec fn progress(
    files: Files,
    paths: Paths,
    artifact: Artifact,
    version: Seq<char>,
    done: nat,
) -> Files
    recommends
        done <= 6,
    decreases done,
{
    if done == 0 {
        files
    } else {
        effect(
            progress(files, paths, artifact, version, (done - 1) as nat),
            operation(paths, artifact, version, (done - 1) as nat),
            EventView::Done { ok: true },
        )
    }
}

/// Until an install has run to its end, the marker is as it was and the live
/// binary is either as it was or already the new one, executable: a reader
/// never finds a half-written file under a live path.
pub proof fn lemma_progress_keeps_marker(
    files: Files,
    paths: Paths,
    artifact: Artifact,
    version: Seq<char>,
    done: nat,
)
    requires
        paths.distinct(),
        done <= 5,
    ensures
        same_at(progress(files, paths, artifact, version, done), files, paths.marker),
        same_at(progress(files, paths, artifact, version, done), files, paths.pid_file),
        done <= 3 ==> same_at(
            progress(files, paths, artifact, version, done),
            files,
            paths.live_binary,
        ),
        done <= 4 ==> same_at(
            progress(files, paths, artifact, version, done),
            files,
            paths.live_config,
        ),
        done >= 4 ==> progress(files, paths, artifact, version, done).dom().contains(
            paths.live_binary,
        ) && progress(files, paths, artifact, version, done)[paths.live_binary] == (FileModel {
            data: artifact.binary,
            mode: Some(EXECUTABLE_MODE),
        }),
        done == 5 ==> progress(files, paths, artifact, version, done).dom().contains(
            paths.live_config,
        ) && progress(files, paths, artifact, version, done)[paths.live_config].data
            == artifact.config,
{
    reveal_with_fuel(progress, 6);
}

/// After an install has run to its end, the live binary holds the new binary
/// and is executable, the live configuration holds the new configuration, the
/// marker names the new version, no staging file is left, and every other
/// file is as it was.
pub proof fn lemma_install_outcome(
    files: Files,
    paths: Paths,
    artifact: Artifact,
    version: Seq<char>,
)
    requires
        paths.distinct(),
        trimmed(version) == version,
    ensures
        ({
            let after = progress(files, paths, artifact, version, 6);
            &&& after.dom().contains(paths.live_binary)
            &&& after[paths.live_binary] == FileModel { data: artifact.binary, mode: Some(EXECUTABLE_MODE) }
            &&& after.dom().contains(paths.live_config)
            &&& after[paths.live_config].data == artifact.config
            &&& after.dom().contains(paths.marker)
            &&& after[paths.marker].data == encode_utf8(version)
            &&& installed_version(after, paths) == Some(version)
            &&& !after.dom().contains(paths.staging_binary)
            &&& !after.dom().contains(paths.staging_config)
            &&& forall|path: Seq<char>|
                path != paths.live_binary && path != paths.live_config && path != paths.marker
                    && path != paths.staging_binary && path != paths.staging_config
                    ==> #[trigger] same_at(after, files, path)
        }),
{
    reveal_with_fuel(progress, 7);
    lemma_text_of_encoding(version);
}

} // verus!
