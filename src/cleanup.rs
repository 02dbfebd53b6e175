use vstd::prelude::*;
use crate::models::Os;
use crate::text::str_eq;

verus! {

/// What an entry of the natives directory is.
#[derive(Clone, Copy, Debug, PartialEq, Eq, Structural)]
pub enum EntryKind {
    File,
    Dir,
    Other,
}

/// What the cleanup pass does with an entry of the natives directory.
#[derive(Clone, Copy, Debug, PartialEq, Eq, Structural)]
pub enum CleanupAction {
    Keep,
    RemoveFile,
    RemoveDirAll,
}

/// The file extension of native libraries on `os`: "dll" on Windows, "dylib"
/// on macOS, "so" elsewhere.
pub open spec fn native_extension(os: Os) -> Seq<char> {
    match os {
        Os::Windows => "dll"@,
        Os::MacOs => "dylib"@,
        _ => "so"@,
    }
}

/// Native libraries of `os` are kept; every other file and every directory is removed.
pub open spec fn cleanup_spec(os: Os, kind: EntryKind, extension: Option<Seq<char>>) -> CleanupAction {
    match kind {
        EntryKind::File => if extension == Some(native_extension(os)) {
            CleanupAction::Keep
        } else {
            CleanupAction::RemoveFile
        },
        EntryKind::Dir => CleanupAction::RemoveDirAll,
        EntryKind::Other => CleanupAction::Keep,
    }
}

/// Decides the fate of one entry of the natives directory after a download on `os`.
pub fn cleanup_action(os: Os, kind: EntryKind, extension: Option<&str>) -> (r: CleanupAction)
    ensures
        r == cleanup_spec(
            os,
            kind,
            match extension {
                Some(e) => Some(e@),
                None => None,
            },
        ),
{
    match kind {
        EntryKind::File => match extension {
            Some(e) => if str_eq(
                e,
                match os {
                    Os::Windows => "dll",
                    Os::MacOs => "dylib",
                    _ => "so",
                },
            ) {
                CleanupAction::Keep
            } else {
                CleanupAction::RemoveFile
            },
            None => CleanupAction::RemoveFile,
        },
        EntryKind::Dir => CleanupAction::RemoveDirAll,
        EntryKind::Other => CleanupAction::Keep,
    }
}

/// After the cleanup pass no directory is left, and the only files left are
/// native libraries of `os`.
pub proof fn lemma_cleanup_leaves_only_natives(os: Os, kind: EntryKind, extension: Option<Seq<char>>)
    ensures
        cleanup_spec(os, kind, extension) == CleanupAction::Keep ==> kind != EntryKind::Dir,
        cleanup_spec(os, kind, extension) == CleanupAction::Keep && kind == EntryKind::File ==> extension
            == Some(native_extension(os)),
{
}

} // verus!
