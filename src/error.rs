use vstd::prelude::*;

verus! {

/// Errors of the download phase.
#[derive(Clone, Debug)]
pub enum DownloadError {
    /// The requested version is absent from the catalog.
    GameVersionNotFound(String),
    /// The library declares a native classifier key but no classifier map.
    LibraryNoClassifiers(String),
    /// The asset of this logical path has a digest shorter than its two-character prefix.
    AssetHashTooShort(String),
}

/// The argument group that a manifest lacks.
#[derive(Clone, Copy, Debug, PartialEq, Eq, Structural)]
pub enum LaunchArguments {
    Game,
    Jvm,
}

/// Errors of the launch phase.
#[derive(Clone, Debug)]
pub enum LaunchError {
    /// The installation state has no usable record of this name.
    ComponentNotFound(String),
    /// The manifest has no templates for this argument group.
    ArgumentsNotFound(LaunchArguments),
}

} // verus!
