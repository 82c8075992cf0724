use crate::directory::PackageDirectory;
use crate::directory_hash::{hash_of_blob, DirectoryHash};
use crate::directory_version::{
    has_version_prefix, version_of_text, DirectoryVersion, ParseDirectoryVersionError,
    VersionView,
};
use crate::events::Timestamp;
use crate::file_hash::{file_hash_of_blob, refuses_blob, FileHash};
use crate::hexcode::{blob_refusal, hex_text};
use crate::parse_error::ParseHashError;
use crate::text::same_text;
use vstd::prelude::*;

verus! {

/// A row of the directory table, as readers see it.
#[derive(Clone, Debug, PartialEq, Eq)]
pub struct DirectoryRow {
    pub directory_id: i64,
    pub package: PackageDirectory,
}

/// Why a stored row could not be read.
#[derive(Debug)]
pub enum RowError {
    /// The stored hash is no directory hash.
    Hash(ParseHashError),
    /// The stored version is no directory version.
    Version(ParseDirectoryVersionError),
}

impl RowError {
    /// The message shown for this error.
    pub fn to_text(&self) -> (text: String)
        ensures
            text@ == match self {
                RowError::Hash(e) => e.spec_text(),
                RowError::Version(e) => e.spec_text(),
            },
    {
        match self {
            RowError::Hash(e) => e.to_text(),
            RowError::Version(e) => e.to_text(),
        }
    }
}

impl DirectoryRow {
    /// Reads a row of the directory table from what its columns store: the
    /// hash as a blob of eight bytes, the version as text. Of a row with a
    /// bad hash and a bad version, the hash is reported.
    pub fn from_row(
        directory_id: i64,
        namespace: String,
        name: String,
        hash: &[u8],
        version: &str,
        metadata: String,
    ) -> (read: Result<Self, RowError>)
        ensures
            match hash_of_blob(hash@) {
                Some(h) => match version_of_text(version@) {
                    Some(v) => read matches Ok(row) && row.directory_id == directory_id
                        && row.package.namespace == namespace && row.package.name == name
                        && row.package.hash.value() == h && row.package.version@ == v
                        && row.package.metadata == metadata,
                    None => read matches Err(RowError::Version(e)) && e.spec_input() == version@
                        && (e.is_semver_error() <==> has_version_prefix(version@)),
                },
                None => read matches Err(RowError::Hash(e)) && e.spec_description()
                    == "directory hash"@ && e.spec_input() == hex_text(hash@)
                    && e.spec_error_string() == blob_refusal(hash@, 8),
            },
    {
        let hash = match DirectoryHash::from_blob(hash) {
            Ok(hash) => hash,
            Err(e) => {
                return Err(RowError::Hash(e));
            },
        };
        let version = match DirectoryVersion::parse(version) {
            Ok(version) => version,
            Err(e) => {
                return Err(RowError::Version(e));
            },
        };
        Ok(
            DirectoryRow {
                directory_id,
                package: PackageDirectory { namespace, name, version, hash, metadata },
            },
        )
    }

    /// A copy of this row.
    pub fn duplicate(&self) -> (copy: Self)
        ensures
            copy == *self,
    {
        Self { directory_id: self.directory_id, package: self.package.duplicate() }
    }

    /// Describes the row for a message: `namespace:name (version .., hash ..)`.
    pub fn to_friendly(&self) -> (text: String)
        ensures
            text@ == self.package.friendly(),
    {
        self.package.to_friendly()
    }
}

/// A row of the directory table with its flag.
#[derive(Clone, Debug, PartialEq, Eq)]
pub struct DirectoryRecord {
    pub row: DirectoryRow,
    pub installed: bool,
}

/// A row of the install table: one successful installation.
#[derive(Clone, Debug, PartialEq, Eq)]
pub struct InstallRecord {
    pub install_id: i64,
    pub directory_id: i64,
    pub install_time: Timestamp,
    pub metadata: String,
}

/// A row of the installed-file table: one file under an install tree.
#[derive(Clone, Debug, PartialEq, Eq)]
pub struct InstalledFileRecord {
    pub installed_file_id: i64,
    pub install_id: i64,
    pub name: String,
    pub hash: FileHash,
    pub metadata: String,
    pub is_binary: bool,
}

impl InstalledFileRecord {
    /// Reads a row of the installed-file table from what its columns store:
    /// the hash as a blob of the two tag bytes and the digest.
    pub fn from_row(
        installed_file_id: i64,
        install_id: i64,
        name: String,
        hash: &[u8],
        metadata: String,
        is_binary: bool,
    ) -> (read: Result<Self, ParseHashError>)
        ensures
            match file_hash_of_blob(hash@) {
                Some(digest) => read matches Ok(row) && row.installed_file_id == installed_file_id
                    && row.install_id == install_id && row.name == name && row.hash.digest()
                    == digest && row.metadata == metadata && row.is_binary == is_binary,
                None => read matches Err(e) && refuses_blob(e, hash@),
            },
    {
        match FileHash::from_blob(hash) {
            Ok(hash) => Ok(
                InstalledFileRecord { installed_file_id, install_id, name, hash, metadata, is_binary },
            ),
            Err(e) => Err(e),
        }
    }
}

/// A file that an installation is about to record.
#[derive(Clone, Debug, PartialEq, Eq)]
pub struct NewInstalledFile {
    pub name: String,
    pub hash: FileHash,
    pub metadata: String,
    pub is_binary: bool,
}

/// An installation joined with its directory.
#[derive(Clone, Debug, PartialEq, Eq)]
pub struct InstalledRow {
    pub directory_row: DirectoryRow,
    pub install_id: i64,
    pub install_metadata: String,
}

/// Why the catalog refused a write.
#[derive(Copy, Clone, Debug, PartialEq, Eq, Structural)]
pub enum CatalogError {
    /// A directory with this namespace, name and hash exists already.
    DirectoryExists,
    /// No directory has this id.
    UnknownDirectory,
    /// Two files of one installation have the same name.
    DuplicateFile,
    /// A table can take no more rows.
    Full,
}

impl CatalogError {
    /// The message shown for this error.
    pub fn to_text(&self) -> (text: String)
        ensures
            text@ == match self {
                CatalogError::DirectoryExists => "a directory with this namespace, name and hash exists"@,
                CatalogError::UnknownDirectory => "no directory has this id"@,
                CatalogError::DuplicateFile => "two installed files have the same name"@,
                CatalogError::Full => "the table is full"@,
            },
    {
        match self {
            CatalogError::DirectoryExists => "a directory with this namespace, name and hash exists".to_owned(),
            CatalogError::UnknownDirectory => "no directory has this id".to_owned(),
            CatalogError::DuplicateFile => "two installed files have the same name".to_owned(),
            CatalogError::Full => "the table is full".to_owned(),
        }
    }
}

/// Whether a directory has this namespace and name.
pub open spec fn is_named(d: DirectoryRecord, namespace: Seq<char>, name: Seq<char>) -> bool {
    d.row.package.namespace@ == namespace && d.row.package.name@ == name
}

/// Whether two directories have the same namespace, name and hash.
pub open spec fn same_key(a: DirectoryRecord, b: DirectoryRecord) -> bool {
    a.row.package.namespace@ == b.row.package.namespace@ && a.row.package.name@
        == b.row.package.name@ && a.row.package.hash.value() == b.row.package.hash.value()
}

/// The rows of the directories with this namespace and name, in table order.
pub open spec fn rows_by_name(
    directories: Seq<DirectoryRecord>,
    namespace: Seq<char>,
    name: Seq<char>,
) -> Seq<DirectoryRow> {
    directories.filter_map(
        |d: DirectoryRecord|
            if is_named(d, namespace, name) {
                Some(d.row)
            } else {
                None
            },
    )
}

/// The rows of the directories with this namespace, name and version, in
/// table order.
pub open spec fn rows_by_version(
    directories: Seq<DirectoryRecord>,
    namespace: Seq<char>,
    name: Seq<char>,
    version: VersionView,
) -> Seq<DirectoryRow> {
    directories.filter_map(
        |d: DirectoryRecord|
            if is_named(d, namespace, name) && d.row.package.version@ == version {
                Some(d.row)
            } else {
                None
            },
    )
}

/// An installation joined with its directory, where that directory has this
/// namespace and name and is marked installed.
pub open spec fn joined(
    directories: Seq<DirectoryRecord>,
    install: InstallRecord,
    namespace: Seq<char>,
    name: Seq<char>,
) -> Option<InstalledRow> {
    let at = install.directory_id - 1;
    if 0 <= at < directories.len() && directories[at].installed && is_named(
        directories[at],
        namespace,
        name,
    ) {
        Some(
            InstalledRow {
                directory_row: directories[at].row,
                install_id: install.install_id,
                install_metadata: install.metadata,
            },
        )
    } else {
        None
    }
}

/// The installations of the installed directories with this namespace and
/// name, in the order in which they were made.
pub open spec fn rows_installed(
    directories: Seq<DirectoryRecord>,
    installs: Seq<InstallRecord>,
    namespace: Seq<char>,
    name: Seq<char>,
) -> Seq<InstalledRow> {
    installs.filter_map(|i: InstallRecord| joined(directories, i, namespace, name))
}

/// The files of one installation, in table order.
pub open spec fn files_of(files: Seq<InstalledFileRecord>, install_id: i64) -> Seq<
    InstalledFileRecord,
> {
    files.filter_map(
        |f: InstalledFileRecord|
            if f.install_id == install_id {
                Some(f)
            } else {
                None
            },
    )
}

/// Whether an installation of this directory is on record.
pub open spec fn has_install(installs: Seq<InstallRecord>, directory_id: int) -> bool {
    exists|k: int| 0 <= k < installs.len() && #[trigger] installs[k].directory_id == directory_id
}

/// The file rows that one installation adds, numbered from `first_id`.
pub open spec fn file_records(files: Seq<NewInstalledFile>, install_id: i64, first_id: int) -> Seq<
    InstalledFileRecord,
> {
    Seq::new(
        files.len(),
        |i: int|
            InstalledFileRecord {
                installed_file_id: (first_id + i) as i64,
                install_id,
                name: files[i].name,
                hash: files[i].hash,
                metadata: files[i].metadata,
                is_binary: files[i].is_binary,
            },
    )
}

/// Whether no two of these files have the same name.
pub open spec fn distinct_names(files: Seq<NewInstalledFile>) -> bool {
    forall|i: int, j: int|
        0 <= i < j < files.len() ==> (#[trigger] files[i]).name@ != (#[trigger] files[j]).name@
}

/// The catalog: the directory table, the install table and the
/// installed-file table. Every write is one transaction: it either happens
/// as a whole or leaves the catalog as it was.
#[derive(Debug)]
pub struct Catalog {
    directories: Vec<DirectoryRecord>,
    installs: Vec<InstallRecord>,
    files: Vec<InstalledFileRecord>,
}

impl Catalog {
    /// The directory table.
    pub closed spec fn directories(&self) -> Seq<DirectoryRecord> {
        self.directories@
    }

    /// The install table.
    pub closed spec fn installs(&self) -> Seq<InstallRecord> {
        self.installs@
    }

    /// The installed-file table.
    pub closed spec fn files(&self) -> Seq<InstalledFileRecord> {
        self.files@
    }

    /// What holds of the catalog between any two transactions: ids count up
    /// from one without gaps; no two directories share namespace, name and
    /// hash; every installation belongs to a directory and every file to an
    /// installation; no two files of one installation share a name; and a
    /// directory that is marked installed has an installation on record.
    pub open spec fn wf(&self) -> bool {
        &&& self.directories().len() < i64::MAX
        &&& self.installs().len() < i64::MAX
        &&& self.files().len() < i64::MAX
        &&& forall|i: int|
            0 <= i < self.directories().len() ==> (#[trigger] self.directories()[i]).row.directory_id
                == i + 1
        &&& forall|i: int, j: int|
            0 <= i < j < self.directories().len() ==> !same_key(
                #[trigger] self.directories()[i],
                #[trigger] self.directories()[j],
            )
        &&& forall|k: int|
            0 <= k < self.installs().len() ==> {
                &&& (#[trigger] self.installs()[k]).install_id == k + 1
                &&& 1 <= self.installs()[k].directory_id <= self.directories().len()
            }
        &&& forall|f: int|
            0 <= f < self.files().len() ==> {
                &&& (#[trigger] self.files()[f]).installed_file_id == f + 1
                &&& 1 <= self.files()[f].install_id <= self.installs().len()
            }
        &&& forall|f: int, g: int|
            0 <= f < g < self.files().len() ==> !((#[trigger] self.files()[f]).install_id == (
            #[trigger] self.files()[g]).install_id && self.files()[f].name@ == self.files()[g].name@)
        &&& forall|i: int|
            0 <= i < self.directories().len() && (#[trigger] self.directories()[i]).installed
                ==> has_install(self.installs(), i + 1)
    }

    /// An empty catalog.
    pub fn new() -> (catalog: Self)
        ensures
            catalog.wf(),
            catalog.directories().len() == 0,
            catalog.installs().len() == 0,
            catalog.files().len() == 0,
    {
        Catalog { directories: Vec::new(), installs: Vec::new(), files: Vec::new() }
    }

    /// How many directories the catalog has.
    pub fn directory_count(&self) -> (count: usize)
        ensures
            count == self.directories().len(),
    {
        self.directories.len()
    }

    /// How many installations the catalog has.
    pub fn install_count(&self) -> (count: usize)
        ensures
            count == self.installs().len(),
    {
        self.installs.len()
    }

    /// The directories with this namespace and name.
    pub fn match_by_name(&self, namespace: &str, name: &str) -> (rows: Vec<DirectoryRow>)
        ensures
            rows@ == rows_by_name(self.directories(), namespace@, name@),
    {
        let mut rows: Vec<DirectoryRow> = Vec::new();
        let mut i: usize = 0;
        while i < self.directories.len()
            invariant
                i <= self.directories.len(),
                rows@ == rows_by_name(self.directories@.take(i as int), namespace@, name@),
            decreases self.directories.len() - i,
        {
            assert(self.directories@.take(i + 1).drop_last() =~= self.directories@.take(i as int));
            let d = &self.directories[i];
            if same_text(d.row.package.namespace.as_str(), namespace) && same_text(
                d.row.package.name.as_str(),
                name,
            ) {
                rows.push(d.row.duplicate());
            }
            i += 1;
        }
        assert(self.directories@.take(i as int) =~= self.directories@);
        rows
    }

    /// The directories with this namespace and name whose version is exactly
    /// `version`.
    pub fn match_by_version(&self, namespace: &str, name: &str, version: &DirectoryVersion) -> (rows:
        Vec<DirectoryRow>)
        ensures
            rows@ == rows_by_version(self.directories(), namespace@, name@, version@),
    {
        let mut rows: Vec<DirectoryRow> = Vec::new();
        let mut i: usize = 0;
        while i < self.directories.len()
            invariant
                i <= self.directories.len(),
                rows@ == rows_by_version(
                    self.directories@.take(i as int),
                    namespace@,
                    name@,
                    version@,
                ),
            decreases self.directories.len() - i,
        {
            assert(self.directories@.take(i + 1).drop_last() =~= self.directories@.take(i as int));
            let d = &self.directories[i];
            if same_text(d.row.package.namespace.as_str(), namespace) && same_text(
                d.row.package.name.as_str(),
                name,
            ) && d.row.package.version.same(version) {
                rows.push(d.row.duplicate());
            }
            i += 1;
        }
        assert(self.directories@.take(i as int) =~= self.directories@);
        rows
    }

    /// The installations of the directories with this namespace and name
    /// that are marked installed, each joined with its directory.
    pub fn match_installed(&self, namespace: &str, name: &str) -> (rows: Vec<InstalledRow>)
        requires
            self.wf(),
        ensures
            rows@ == rows_installed(self.directories(), self.installs(), namespace@, name@),
    {
        let mut rows: Vec<InstalledRow> = Vec::new();
        let mut k: usize = 0;
        while k < self.installs.len()
            invariant
                self.wf(),
                k <= self.installs.len(),
                rows@ == rows_installed(
                    self.directories@,
                    self.installs@.take(k as int),
                    namespace@,
                    name@,
                ),
            decreases self.installs.len() - k,
        {
            assert(self.installs@.take(k + 1).drop_last() =~= self.installs@.take(k as int));
            let install = &self.installs[k];
            assert(1 <= self.installs()[k as int].directory_id <= self.directories().len());
            let count = self.directories.len();
            assert(install.directory_id <= count);
            let at = (install.directory_id - 1) as usize;
            let d = &self.directories[at];
            if d.installed && same_text(d.row.package.namespace.as_str(), namespace) && same_text(
                d.row.package.name.as_str(),
                name,
            ) {
                rows.push(
                    InstalledRow {
                        directory_row: d.row.duplicate(),
                        install_id: install.install_id,
                        install_metadata: install.metadata.clone(),
                    },
                );
            }
            k += 1;
        }
        assert(self.installs@.take(k as int) =~= self.installs@);
        rows
    }

    /// The files that one installation recorded.
    pub fn installed_files(&self, install_id: i64) -> (rows: Vec<InstalledFileRecord>)
        ensures
            rows@ == files_of(self.files(), install_id),
    {
        let mut rows: Vec<InstalledFileRecord> = Vec::new();
        let mut i: usize = 0;
        while i < self.files.len()
            invariant
                i <= self.files.len(),
                rows@ == files_of(self.files@.take(i as int), install_id),
            decreases self.files.len() - i,
        {
            assert(self.files@.take(i + 1).drop_last() =~= self.files@.take(i as int));
            let f = &self.files[i];
            if f.install_id == install_id {
                rows.push(
                    InstalledFileRecord {
                        installed_file_id: f.installed_file_id,
                        install_id: f.install_id,
                        name: f.name.clone(),
                        hash: f.hash.duplicate(),
                        metadata: f.metadata.clone(),
                        is_binary: f.is_binary,
                    },
                );
            }
            i += 1;
        }
        assert(self.files@.take(i as int) =~= self.files@);
        rows
    }

    /// Whether the directory with this id is marked installed; `None` where
    /// no directory has the id.
    pub fn get_installed(&self, directory_id: i64) -> (installed: Option<bool>)
        requires
            self.wf(),
        ensures
            1 <= directory_id <= self.directories().len() ==> installed == Some(
                self.directories()[directory_id - 1].installed,
            ),
            !(1 <= directory_id <= self.directories().len()) ==> installed is None,
    {
        if directory_id >= 1 && (directory_id as u64) <= (self.directories.len() as u64) {
            Some(self.directories[(directory_id - 1) as usize].installed)
        } else {
            None
        }
    }

    /// Adds a directory, not installed, in one transaction. A directory
    /// with the same namespace, name and hash must not exist.
    pub fn insert_directory(
        &mut self,
        namespace: &str,
        name: &str,
        hash: DirectoryHash,
        version: &DirectoryVersion,
        metadata: &str,
    ) -> (inserted: Result<DirectoryRow, CatalogError>)
        requires
            old(self).wf(),
        ensures
            final(self).wf(),
            final(self).installs() == old(self).installs(),
            final(self).files() == old(self).files(),
            match inserted {
                Ok(row) => {
                    &&& final(self).directories() == old(self).directories().push(
                        DirectoryRecord { row, installed: false },
                    )
                    &&& row.directory_id == old(self).directories().len() + 1
                    &&& row.package.namespace@ == namespace@
                    &&& row.package.name@ == name@
                    &&& row.package.hash == hash
                    &&& row.package.version == *version
                    &&& row.package.metadata@ == metadata@
                },
                Err(e) => final(self).directories() == old(self).directories(),
            },
            inserted is Err <==> (exists|i: int|
                0 <= i < old(self).directories().len() && is_named(
                    #[trigger] old(self).directories()[i],
                    namespace@,
                    name@,
                ) && old(self).directories()[i].row.package.hash.value() == hash.value()) || old(
                self,
            ).directories().len() + 1 >= i64::MAX,
            inserted matches Err(e) ==> e == (if old(self).directories().len() + 1 >= i64::MAX {
                CatalogError::Full
            } else {
                CatalogError::DirectoryExists
            }),
    {
        let count = self.directories.len() as u64;
        if count >= (i64::MAX - 1) as u64 {
            return Err(CatalogError::Full);
        }
        let mut i: usize = 0;
        while i < self.directories.len()
            invariant
                *self == *old(self),
                self.wf(),
                count == self.directories@.len(),
                count < i64::MAX - 1,
                i <= self.directories.len(),
                forall|j: int|
                    0 <= j < i ==> !(is_named(#[trigger] self.directories@[j], namespace@, name@)
                        && self.directories@[j].row.package.hash.value() == hash.value()),
            decreases self.directories.len() - i,
        {
            let d = &self.directories[i];
            if same_text(d.row.package.namespace.as_str(), namespace) && same_text(
                d.row.package.name.as_str(),
                name,
            ) && d.row.package.hash.numeric() == hash.numeric() {
                assert(is_named(old(self).directories()[i as int], namespace@, name@));
                return Err(CatalogError::DirectoryExists);
            }
            i += 1;
        }
        let row = DirectoryRow {
            directory_id: (count + 1) as i64,
            package: PackageDirectory {
                namespace: namespace.to_owned(),
                name: name.to_owned(),
                version: version.duplicate(),
                hash,
                metadata: metadata.to_owned(),
            },
        };
        let returned = row.duplicate();
        self.directories.push(DirectoryRecord { row, installed: false });
        proof {
            let old_dirs = old(self).directories();
            let new_dirs = self.directories();
            assert forall|a: int, b: int| 0 <= a < b < new_dirs.len() implies !same_key(
                #[trigger] new_dirs[a],
                #[trigger] new_dirs[b],
            ) by {
                if b < old_dirs.len() {
                    assert(!same_key(old_dirs[a], old_dirs[b]));
                } else {
                    assert(!(is_named(old_dirs[a], namespace@, name@)
                        && old_dirs[a].row.package.hash.value() == hash.value()));
                }
            }
            assert forall|a: int| 0 <= a < new_dirs.len() && (#[trigger] new_dirs[a]).installed
                implies has_install(self.installs(), a + 1) by {
                assert(new_dirs[a] == old_dirs[a]);
            }
        }
        Ok(returned)
    }

    /// Records an installation in one transaction: adds the install row and
    /// a row for each file, and marks the directory installed. Returns the
    /// id of the install row.
    pub fn commit_install(
        &mut self,
        directory_id: i64,
        install_time: Timestamp,
        metadata: &str,
        files: Vec<NewInstalledFile>,
    ) -> (committed: Result<i64, CatalogError>)
        requires
            old(self).wf(),
        ensures
            final(self).wf(),
            match committed {
                Ok(install_id) => {
                    let at = directory_id - 1;
                    &&& 1 <= directory_id <= old(self).directories().len()
                    &&& install_id == old(self).installs().len() + 1
                    &&& final(self).directories() == old(self).directories().update(
                        at,
                        DirectoryRecord { row: old(self).directories()[at].row, installed: true },
                    )
                    &&& final(self).installs().len() == old(self).installs().len() + 1
                    &&& final(self).installs().drop_last() == old(self).installs()
                    &&& final(self).installs().last().install_id == install_id
                    &&& final(self).installs().last().directory_id == directory_id
                    &&& final(self).installs().last().install_time == install_time
                    &&& final(self).installs().last().metadata@ == metadata@
                    &&& final(self).files() == old(self).files() + file_records(
                        files@,
                        install_id,
                        old(self).files().len() as int + 1,
                    )
                },
                Err(e) => {
                    &&& final(self).directories() == old(self).directories()
                    &&& final(self).installs() == old(self).installs()
                    &&& final(self).files() == old(self).files()
                },
            },
            committed is Ok <==> {
                &&& 1 <= directory_id <= old(self).directories().len()
                &&& distinct_names(files@)
                &&& old(self).installs().len() + 1 < i64::MAX
                &&& old(self).files().len() + files@.len() < i64::MAX
            },
            committed matches Err(e) ==> e == (if !(1 <= directory_id <= old(
                self,
            ).directories().len()) {
                CatalogError::UnknownDirectory
            } else if !distinct_names(files@) {
                CatalogError::DuplicateFile
            } else {
                CatalogError::Full
            }),
    {
        if !(directory_id >= 1 && (directory_id as u64) <= (self.directories.len() as u64)) {
            return Err(CatalogError::UnknownDirectory);
        }
        if !has_distinct_names(&files) {
            return Err(CatalogError::DuplicateFile);
        }
        let install_count = self.installs.len() as u64;
        if install_count >= (i64::MAX - 1) as u64 {
            return Err(CatalogError::Full);
        }
        let file_count = self.files.len() as u64;
        if files.len() as u64 >= (i64::MAX as u64) - file_count {
            return Err(CatalogError::Full);
        }
        let at = (directory_id - 1) as usize;
        let install_id = (install_count + 1) as i64;
        let install = InstallRecord {
            install_id,
            directory_id,
            install_time,
            metadata: metadata.to_owned(),
        };
        let ghost new_install = install;
        self.installs.push(install);
        let ghost first_id: int = old(self).files().len() as int + 1;
        let ghost added = file_records(files@, install_id, first_id);
        let mut j: usize = 0;
        while j < files.len()
            invariant
                self.directories@ == old(self).directories(),
                self.installs@ == old(self).installs().push(new_install),
                j <= files@.len(),
                added == file_records(files@, install_id, first_id),
                first_id == old(self).files().len() + 1,
                file_count == old(self).files().len(),
                old(self).files().len() + files@.len() < i64::MAX,
                self.files@ == old(self).files() + added.take(j as int),
            decreases files.len() - j,
        {
            let file = &files[j];
            let record = InstalledFileRecord {
                installed_file_id: (file_count + (j as u64) + 1) as i64,
                install_id,
                name: file.name.clone(),
                hash: file.hash.duplicate(),
                metadata: file.metadata.clone(),
                is_binary: file.is_binary,
            };
            assert(record == added[j as int]);
            self.files.push(record);
            j += 1;
            assert(self.files@ =~= old(self).files() + added.take(j as int));
        }
        assert(added.take(j as int) =~= added);
        let ghost given = files@;
        let marked = DirectoryRecord { row: self.directories[at].row.duplicate(), installed: true };
        self.directories.set(at, marked);
        proof {
            let old_dirs = old(self).directories();
            let new_dirs = self.directories();
            let old_files = old(self).files();
            let new_files = self.files();
            let new_installs = self.installs();
            assert(new_installs.drop_last() =~= old(self).installs());
            assert forall|a: int, b: int| 0 <= a < b < new_dirs.len() implies !same_key(
                #[trigger] new_dirs[a],
                #[trigger] new_dirs[b],
            ) by {
                assert(!same_key(old_dirs[a], old_dirs[b]));
            }
            assert forall|k: int| 0 <= k < new_installs.len() implies {
                &&& (#[trigger] new_installs[k]).install_id == k + 1
                &&& 1 <= new_installs[k].directory_id <= new_dirs.len()
            } by {
                if k < old(self).installs().len() {
                    assert(new_installs[k] == old(self).installs()[k]);
                }
            }
            assert forall|f: int| 0 <= f < new_files.len() implies {
                &&& (#[trigger] new_files[f]).installed_file_id == f + 1
                &&& 1 <= new_files[f].install_id <= new_installs.len()
            } by {
                if f < old_files.len() {
                    assert(new_files[f] == old_files[f]);
                } else {
                    assert(new_files[f] == added[f - old_files.len()]);
                }
            }
            assert forall|f: int, g: int| 0 <= f < g < new_files.len() implies !((
            #[trigger] new_files[f]).install_id == (#[trigger] new_files[g]).install_id
                && new_files[f].name@ == new_files[g].name@) by {
                if g < old_files.len() {
                    assert(new_files[f] == old_files[f]);
                    assert(new_files[g] == old_files[g]);
                } else if f < old_files.len() {
                    assert(new_files[f] == old_files[f]);
                    assert(new_files[g] == added[g - old_files.len()]);
                } else {
                    assert(new_files[f] == added[f - old_files.len()]);
                    assert(new_files[g] == added[g - old_files.len()]);
                    assert(given[f - old_files.len()].name@ != given[g - old_files.len()].name@);
                }
            }
            assert forall|a: int| 0 <= a < new_dirs.len() && (#[trigger] new_dirs[a]).installed
                implies has_install(new_installs, a + 1) by {
                if a == at {
                    assert(new_installs[new_installs.len() - 1].directory_id == a + 1);
                } else {
                    assert(new_dirs[a] == old_dirs[a]);
                    let k = choose|k: int|
                        0 <= k < old(self).installs().len() && #[trigger] old(
                            self,
                        ).installs()[k].directory_id == a + 1;
                    assert(new_installs[k] == old(self).installs()[k]);
                }
            }
        }
        Ok(install_id)
    }
}

/// Whether no two of these files have the same name.
pub fn has_distinct_names(files: &Vec<NewInstalledFile>) -> (distinct: bool)
    ensures
        distinct == distinct_names(files@),
{
    let mut j: usize = 0;
    while j < files.len()
        invariant
            j <= files.len(),
            forall|a: int, b: int|
                0 <= a < b < j ==> (#[trigger] files@[a]).name@ != (#[trigger] files@[b]).name@,
        decreases files.len() - j,
    {
        let mut i: usize = 0;
        while i < j
            invariant
                i <= j < files.len(),
                forall|a: int| 0 <= a < i ==> (#[trigger] files@[a]).name@ != files@[j as int].name@,
            decreases j - i,
        {
            if same_text(files[i].name.as_str(), files[j].name.as_str()) {
                return false;
            }
            i += 1;
        }
        j += 1;
    }
    true
}

/// No two directories have the same namespace, name and hash: whatever is
/// installed for a name and a hash is installed in one directory.
pub proof fn lemma_one_directory_per_key(catalog: Catalog, i: int, j: int)
    requires
        catalog.wf(),
        0 <= i < catalog.directories().len(),
        0 <= j < catalog.directories().len(),
        same_key(catalog.directories()[i], catalog.directories()[j]),
    ensures
        i == j,
{
    if i < j {
        assert(!same_key(catalog.directories()[i], catalog.directories()[j]));
    }
    if j < i {
        assert(!same_key(catalog.directories()[j], catalog.directories()[i]));
    }
}

/// A directory that is marked installed has an installation on record.
pub proof fn lemma_installed_has_install(catalog: Catalog, i: int)
    requires
        catalog.wf(),
        0 <= i < catalog.directories().len(),
        catalog.directories()[i].installed,
    ensures
        has_install(catalog.installs(), catalog.directories()[i].row.directory_id as int),
{
}

} // verus!
