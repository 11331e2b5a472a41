//! Records describing a published release and the outcome of an update
//! check.  The release-download mechanism itself lives with the caller; the
//! library holds the data and the version comparison.

use vstd::prelude::*;

verus! {

/// One downloadable artifact of a release.
#[derive(Debug, Clone, PartialEq)]
pub struct ReleaseAsset {
    /// File name of the artifact.
    pub name: String,
    /// Where the artifact downloads from.
    pub browser_download_url: String,
    /// Its media type.
    pub content_type: String,
    /// Its size in bytes.
    pub size: u64,
}

/// One published release.
#[derive(Debug, Clone, PartialEq)]
pub struct ReleaseInfo {
    /// The release tag, such as `v1.2.3`.
    pub tag_name: String,
    /// The release's display name.
    pub name: String,
    /// The release notes.
    pub body: String,
    /// When the release was published, as reported.
    pub published_at: String,
    /// Whether the release is marked a pre-release.
    pub prerelease: bool,
    /// The downloadable artifacts.
    pub assets: Vec<ReleaseAsset>,
}

/// The outcome of an update check.
#[derive(Debug, Clone, PartialEq)]
pub enum UpdateStatus {
    /// The running version is the newest published one.
    UpToDate,
    /// A newer release exists.
    UpdateAvailable(ReleaseInfo),
    /// The check itself failed, with a description.
    CheckFailed(String),
}

/// Whether the version triple `remote` is strictly newer than `current`,
/// compared major first, then minor, then patch.
pub open spec fn version_newer_spec(current: (u32, u32, u32), remote: (u32, u32, u32)) -> bool {
    if remote.0 != current.0 {
        remote.0 > current.0
    } else if remote.1 != current.1 {
        remote.1 > current.1
    } else {
        remote.2 > current.2
    }
}

/// Whether the parsed version `remote` is strictly newer than `current`.
pub fn is_newer_version(current: (u32, u32, u32), remote: (u32, u32, u32)) -> (r: bool)
    ensures
        r == version_newer_spec(current, remote),
{
    if remote.0 != current.0 {
        remote.0 > current.0
    } else if remote.1 != current.1 {
        remote.1 > current.1
    } else {
        remote.2 > current.2
    }
}

} // verus!
