use vstd::prelude::*;

verus! {

/// The operating system that the launcher runs on.
#[derive(Clone, Copy, Debug, PartialEq, Eq, Structural)]
pub enum Os {
    Windows,
    Linux,
    MacOs,
    Other,
}

/// An entry of the remote version catalog.
#[derive(Clone, Debug)]
pub struct Version {
    pub id: String,
    pub url: String,
}

/// A downloadable file: path relative to the libraries root, source URL, SHA-1.
#[derive(Clone, Debug)]
pub struct Artifact {
    pub path: String,
    pub url: String,
    pub sha1: String,
}

/// Classifier key of a library's native archive, per operating system.
#[derive(Clone, Debug)]
pub struct Natives {
    pub windows: Option<String>,
    pub linux: Option<String>,
    pub macos: Option<String>,
}

#[derive(Clone, Debug)]
pub struct LibraryDownloads {
    pub artifact: Option<Artifact>,
    /// Classifier key and the archive it names, in manifest order. The keys
    /// come from a JSON object and so are unique; a lookup takes the first match.
    pub classifiers: Option<Vec<(String, Artifact)>>,
}

/// An inclusion rule: `action` is "allow" or "disallow", conditioned on `os`.
#[derive(Clone, Debug)]
pub struct Rule {
    pub action: String,
    pub os: Option<String>,
}

#[derive(Clone, Debug)]
pub struct Library {
    pub name: String,
    pub downloads: LibraryDownloads,
    pub natives: Option<Natives>,
    pub rules: Option<Vec<Rule>>,
}

#[derive(Clone, Debug)]
pub struct AssetIndex {
    pub id: String,
    pub url: String,
}

#[derive(Clone, Debug)]
pub struct ClientDownload {
    pub url: String,
    pub sha1: String,
}

/// The build manifest of one game version.
#[derive(Clone, Debug)]
pub struct Meta {
    pub id: String,
    pub main_class: String,
    pub release_type: String,
    pub libraries: Vec<Library>,
    pub asset_index: AssetIndex,
    pub client: ClientDownload,
    /// The "game" argument templates, when the manifest has them.
    pub game_arguments: Option<Vec<String>>,
    /// The "jvm" argument templates, when the manifest has them.
    pub jvm_arguments: Option<Vec<String>>,
}

#[derive(Clone, Debug)]
pub struct AssetObject {
    pub hash: String,
    pub size: u64,
}

/// An asset index: logical asset path and the object stored for it. The paths
/// come from a JSON object and so are unique; objects may share a digest.
#[derive(Clone, Debug)]
pub struct Assets {
    pub objects: Vec<(String, AssetObject)>,
}

/// Filesystem locations of the roles that the planner and the builder use.
#[derive(Clone, Debug)]
pub struct Paths {
    pub instance: String,
    pub libraries: String,
    pub natives: String,
    pub assets: String,
    pub resources: String,
}

/// The credentials that the game arguments carry.
#[derive(Clone, Debug)]
pub struct Account {
    pub uuid: String,
    pub access_token: String,
}

/// The operating system that an OS name of a manifest denotes ("osx" is an alias of "macos").
pub open spec fn os_of_name(n: Seq<char>) -> Os {
    if n == "windows"@ {
        Os::Windows
    } else if n == "linux"@ {
        Os::Linux
    } else if n == "macos"@ || n == "osx"@ {
        Os::MacOs
    } else {
        Os::Other
    }
}

pub fn os_from_name(n: &str) -> (r: Os)
    ensures
        r == os_of_name(n@),
{
    if crate::text::str_eq(n, "windows") {
        Os::Windows
    } else if crate::text::str_eq(n, "linux") {
        Os::Linux
    } else if crate::text::str_eq(n, "macos") || crate::text::str_eq(n, "osx") {
        Os::MacOs
    } else {
        Os::Other
    }
}

/// Selects the catalog entry whose identifier is exactly `id`, the first one if several are.
pub fn find_version(versions: &Vec<Version>, id: &str) -> (r: Result<Version, crate::error::DownloadError>)
    ensures
        match r {
            Ok(v) => exists|i: int|
                0 <= i < versions@.len() && v == versions@[i] && versions@[i].id@ == id@ && forall|j: int|
                    0 <= j < i ==> (#[trigger] versions@[j]).id@ != id@,
            Err(crate::error::DownloadError::GameVersionNotFound(n)) => n@ == id@ && forall|j: int|
                0 <= j < versions@.len() ==> (#[trigger] versions@[j]).id@ != id@,
            Err(_) => false,
        },
{
    let mut i: usize = 0;
    while i < versions.len()
        invariant
            i <= versions@.len(),
            forall|j: int| 0 <= j < i ==> (#[trigger] versions@[j]).id@ != id@,
        decreases versions@.len() - i,
    {
        if crate::text::str_eq(versions[i].id.as_str(), id) {
            return Ok(Version { id: versions[i].id.clone(), url: versions[i].url.clone() });
        }
        i = i + 1;
    }
    Err(crate::error::DownloadError::GameVersionNotFound(String::from_str(id)))
}

} // verus!
