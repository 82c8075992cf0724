use crate::directory::PackageDirectory;
use crate::events::Timestamp;
use crate::file_hash::FileHash;
use vstd::prelude::*;

verus! {

/// A package that is installed.
#[derive(Clone, Debug, PartialEq, Eq)]
pub struct InstalledPackage {
    /// The directory of the package.
    pub package: PackageDirectory,
    /// The installation.
    pub info: InstallInfo,
}

/// An installation, as part of an [`InstalledPackage`].
#[derive(Clone, Debug, PartialEq, Eq)]
pub struct InstallInfo {
    /// The install path.
    pub install_path: String,
    /// When the installation was committed.
    pub install_time: Timestamp,
    /// The installed files, each under its name.
    pub installed_files: Vec<(String, InstalledFile)>,
    /// More about the installation, as JSON.
    pub metadata: String,
}

/// A file that is installed, as part of an [`InstallInfo`].
#[derive(Clone, Debug, PartialEq, Eq)]
pub struct InstalledFile {
    /// The full path of the file.
    pub full_path: String,
    /// The hash of the file's content.
    pub hash: FileHash,
    /// More about the file, as JSON.
    pub metadata: String,
    /// Whether the file is a binary for which a launcher is made.
    pub is_binary: bool,
}

} // verus!
