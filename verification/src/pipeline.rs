use crate::catalog::{DirectoryRow, InstalledRow};
use crate::directory::{hash_input, new_directory_hash, xxh64, CargoDirectory};
use crate::directory_hash::DirectoryHash;
use crate::directory_version::DirectoryVersion;
use crate::install::InstallStatus;
use crate::version_req::{req_admits, DirectoryVersionReq};
use vstd::prelude::*;

verus! {

/// The first of `rows` whose version meets `req`, if there is one.
pub open spec fn first_admitted(rows: Seq<DirectoryRow>, req: Seq<char>) -> Option<DirectoryRow>
    decreases rows.len(),
{
    if rows.len() == 0 {
        None
    } else if req_admits(req, rows[0].package.version@) {
        Some(rows[0])
    } else {
        first_admitted(rows.drop_first(), req)
    }
}

/// The first of `rows` whose directory has a version that meets `req`, if
/// there is one.
pub open spec fn first_installed(rows: Seq<InstalledRow>, req: Seq<char>) -> Option<InstalledRow>
    decreases rows.len(),
{
    if rows.len() == 0 {
        None
    } else if req_admits(req, rows[0].directory_row.package.version@) {
        Some(rows[0])
    } else {
        first_installed(rows.drop_first(), req)
    }
}

/// How packages of the namespace `cargo` are matched.
#[derive(Clone, Debug)]
pub struct CargoMatcher {
    metadata: CargoDirectory,
}

impl CargoMatcher {
    /// The matcher for packages with this metadata.
    pub fn new(metadata: CargoDirectory) -> (matcher: Self)
        ensures
            matcher.spec_metadata() == metadata,
    {
        Self { metadata }
    }

    /// What the matcher was made with.
    pub closed spec fn spec_metadata(&self) -> CargoDirectory {
        self.metadata
    }

    /// The namespace of the packages that this matcher is for.
    pub fn namespace(&self) -> (namespace: &'static str)
        ensures
            namespace@ == "cargo"@,
    {
        "cargo"
    }

    /// What the catalog stores with a directory of this matcher, as JSON.
    pub fn metadata(&self) -> (text: String)
        ensures
            text@ == self.spec_metadata().json(),
    {
        self.metadata.to_json()
    }

    /// What this matcher adds to a directory hash.
    pub fn hash_extra(&self) -> (extra: Vec<u8>)
        ensures
            extra@ == seq![if self.spec_metadata().default_features { 1u8 } else { 0u8 }],
    {
        self.metadata.hash_extra()
    }
}

/// What identifies the target of an install: namespace, name, the
/// requirement on the version, and the namespace's metadata.
pub struct MatcherView {
    pub namespace: Seq<char>,
    pub name: Seq<char>,
    pub req: Seq<char>,
    pub metadata: Seq<char>,
    pub extra: Seq<u8>,
}

/// The first stage of an install: the target is known, the catalog has not
/// been asked yet.
#[derive(Clone, Debug)]
pub struct PackageMatcher {
    namespace: String,
    name: String,
    req: DirectoryVersionReq,
    metadata: String,
    extra: Vec<u8>,
}

impl View for PackageMatcher {
    type V = MatcherView;

    closed spec fn view(&self) -> MatcherView {
        MatcherView {
            namespace: self.namespace@,
            name: self.name@,
            req: self.req@,
            metadata: self.metadata@,
            extra: self.extra@,
        }
    }
}

impl PackageMatcher {
    /// The matcher for the package `name` of the namespace `cargo`, in a
    /// version that meets `req`.
    pub fn new(matcher: CargoMatcher, name: String, req: DirectoryVersionReq) -> (made: Self)
        ensures
            made@ == (MatcherView {
                namespace: "cargo"@,
                name: name@,
                req: req@,
                metadata: matcher.spec_metadata().json(),
                extra: seq![if matcher.spec_metadata().default_features { 1u8 } else { 0u8 }],
            }),
    {
        Self {
            namespace: matcher.namespace().to_owned(),
            name,
            req,
            metadata: matcher.metadata(),
            extra: matcher.hash_extra(),
        }
    }

    /// The namespace of the package.
    pub fn namespace(&self) -> (namespace: &str)
        ensures
            namespace@ == self@.namespace,
    {
        self.namespace.as_str()
    }

    /// The name of the package.
    pub fn name(&self) -> (name: &str)
        ensures
            name@ == self@.name,
    {
        self.name.as_str()
    }

    /// The requirement on the version.
    pub fn req(&self) -> (req: &DirectoryVersionReq)
        ensures
            req@ == self@.req,
    {
        &self.req
    }

    /// What the catalog stores with the directory, as JSON.
    pub fn metadata(&self) -> (metadata: &str)
        ensures
            metadata@ == self@.metadata,
    {
        self.metadata.as_str()
    }

    /// Of the directories that the catalog has under this namespace and
    /// name, the first whose version meets the requirement.
    pub fn best_match(&self, all_matches: Vec<DirectoryRow>) -> (best: Option<DirectoryRow>)
        ensures
            best == first_admitted(all_matches@, self@.req),
    {
        let mut i: usize = 0;
        assert(all_matches@.skip(0) =~= all_matches@);
        while i < all_matches.len()
            invariant
                i <= all_matches.len(),
                first_admitted(all_matches@, self@.req) == first_admitted(
                    all_matches@.skip(i as int),
                    self@.req,
                ),
            decreases all_matches.len() - i,
        {
            assert(all_matches@.skip(i as int).drop_first() =~= all_matches@.skip(i + 1));
            if self.req.matches(&all_matches[i].package.version) {
                return Some(all_matches[i].duplicate());
            }
            i += 1;
        }
        None
    }

    /// Of the directories that the catalog has under this namespace, name
    /// and one version, the first.
    pub fn best_match_for_version(&self, all_matches: Vec<DirectoryRow>) -> (best: Option<
        DirectoryRow,
    >)
        ensures
            all_matches@.len() == 0 ==> best is None,
            all_matches@.len() > 0 ==> best == Some(all_matches@[0]),
    {
        if all_matches.len() > 0 {
            Some(all_matches[0].duplicate())
        } else {
            None
        }
    }

    /// Of the installations that the catalog has under this namespace and
    /// name, the first whose version meets the requirement.
    pub fn best_installed_match(&self, installed_rows: Vec<InstalledRow>) -> (best: Option<
        InstalledRow,
    >)
        ensures
            best == first_installed(installed_rows@, self@.req),
    {
        let mut i: usize = 0;
        assert(installed_rows@.skip(0) =~= installed_rows@);
        while i < installed_rows.len()
            invariant
                i <= installed_rows.len(),
                first_installed(installed_rows@, self@.req) == first_installed(
                    installed_rows@.skip(i as int),
                    self@.req,
                ),
            decreases installed_rows.len() - i,
        {
            assert(installed_rows@.skip(i as int).drop_first() =~= installed_rows@.skip(i + 1));
            let row = &installed_rows[i];
            if self.req.matches(&row.directory_row.package.version) {
                return Some(
                    InstalledRow {
                        directory_row: row.directory_row.duplicate(),
                        install_id: row.install_id,
                        install_metadata: row.install_metadata.clone(),
                    },
                );
            }
            i += 1;
        }
        None
    }

    /// The target in words: `namespace:name (version requirement)`.
    pub fn to_friendly(&self) -> (text: String)
        ensures
            text@ == self@.namespace + ":"@ + self@.name + " (version "@ + self@.req + ")"@,
    {
        let mut text = self.namespace.clone();
        text.append(":");
        text.append(self.name.as_str());
        text.append(" (version ");
        text.append(self.req.as_str());
        text.append(")");
        text
    }

    /// Goes on to the stage that turns the requirement into one version.
    pub fn make_resolver(self) -> (resolver: PackageResolver)
        ensures
            resolver.matcher@ == self@,
    {
        PackageResolver::new(self)
    }
}

/// What the first look at the catalog decides: a target that has an
/// installation is done with; any other goes through the pipeline.
pub fn status_if_installed(best_installed: &Option<InstalledRow>) -> (status: Option<InstallStatus>)
    ensures
        best_installed is Some ==> status == Some(InstallStatus::AlreadyInstalled),
        best_installed is None ==> status is None,
{
    match best_installed {
        Some(_) => Some(InstallStatus::AlreadyInstalled),
        None => None,
    }
}

/// The second stage of an install: the requirement is to become one version.
#[derive(Clone, Debug)]
pub struct PackageResolver {
    pub matcher: PackageMatcher,
}

impl PackageResolver {
    /// The resolver for a target.
    pub fn new(matcher: PackageMatcher) -> (resolver: Self)
        ensures
            resolver.matcher == matcher,
    {
        Self { matcher }
    }

    /// Goes on to the stage that fetches `version`, the version that the
    /// requirement was resolved to.
    pub fn make_fetcher(self, version: DirectoryVersion) -> (fetcher: PackageFetcher)
        ensures
            fetcher.matcher == self.matcher,
            fetcher.version == version,
    {
        PackageFetcher::new(self.matcher, version)
    }
}

/// The third stage of an install: one version is to be fetched into the
/// staging area.
#[derive(Clone, Debug)]
pub struct PackageFetcher {
    pub matcher: PackageMatcher,
    pub version: DirectoryVersion,
}

impl PackageFetcher {
    /// The fetcher for one version of a target.
    pub fn new(matcher: PackageMatcher, version: DirectoryVersion) -> (fetcher: Self)
        ensures
            fetcher.matcher == matcher,
            fetcher.version == version,
    {
        Self { matcher, version }
    }

    /// The target in words: `namespace:name (version ..)`.
    pub fn to_friendly(&self) -> (text: String)
        ensures
            text@ == self.matcher@.namespace + ":"@ + self.matcher@.name + " (version "@
                + self.version@.text() + ")"@,
    {
        let mut text = self.matcher.namespace.clone();
        text.append(":");
        text.append(self.matcher.name.as_str());
        text.append(" (version ");
        text.append(self.version.to_text().as_str());
        text.append(")");
        text
    }

    /// Decides, once the package is fetched, which directory the install
    /// goes to. `known` is what the catalog has under this namespace, name
    /// and version.
    pub fn fetch(self, known: Vec<DirectoryRow>) -> (target: DirectoryTarget)
        ensures
            known@.len() > 0 ==> target == DirectoryTarget::Existing(known@[0]),
            known@.len() == 0 ==> (target matches DirectoryTarget::New(new) && new.namespace@
                == self.matcher@.namespace && new.name@ == self.matcher@.name && new.version
                == self.version && new.metadata@ == self.matcher@.metadata && new.hash.value()
                == xxh64(
                hash_input(
                    self.matcher@.namespace,
                    self.matcher@.name,
                    self.version@,
                    self.matcher@.extra,
                ),
            )),
    {
        match self.matcher.best_match_for_version(known) {
            Some(row) => DirectoryTarget::Existing(row),
            None => {
                let hash = new_directory_hash(
                    self.matcher.namespace.as_str(),
                    self.matcher.name.as_str(),
                    &self.version,
                    self.matcher.extra.as_slice(),
                );
                DirectoryTarget::New(
                    NewDirectory {
                        namespace: self.matcher.namespace,
                        name: self.matcher.name,
                        hash,
                        version: self.version,
                        metadata: self.matcher.metadata,
                    },
                )
            },
        }
    }
}

/// A directory that is to be added to the catalog, not installed, while the
/// exclusive lock on its install path is held.
#[derive(Clone, Debug, PartialEq, Eq)]
pub struct NewDirectory {
    pub namespace: String,
    pub name: String,
    pub hash: DirectoryHash,
    pub version: DirectoryVersion,
    pub metadata: String,
}

/// Where an install goes: to a directory that the catalog has, or to one
/// that is to be added first.
#[derive(Clone, Debug, PartialEq, Eq)]
pub enum DirectoryTarget {
    Existing(DirectoryRow),
    New(NewDirectory),
}

/// What to do for a directory once its exclusive lock is held.
#[derive(Copy, Clone, Debug, PartialEq, Eq, Structural)]
pub enum InstallDecision {
    /// The directory is installed and no install is forced.
    AlreadyInstalled,
    /// Start the install.
    Start,
}

/// The fourth stage of an install: the directory has its row, and the
/// package is to be built and installed.
#[derive(Clone, Debug)]
pub struct PackageInstaller {
    pub row: DirectoryRow,
}

impl PackageInstaller {
    /// The installer for a directory.
    pub fn new(row: DirectoryRow) -> (installer: Self)
        ensures
            installer.row == row,
    {
        Self { row }
    }

    /// Decides, under the exclusive lock, whether to install: not where the
    /// catalog says that the directory is installed, unless `force` is set.
    pub fn install(&self, installed: bool, force: bool) -> (decision: InstallDecision)
        ensures
            decision == if installed && !force {
                InstallDecision::AlreadyInstalled
            } else {
                InstallDecision::Start
            },
    {
        if installed && !force {
            InstallDecision::AlreadyInstalled
        } else {
            InstallDecision::Start
        }
    }
}

/// One step of work on a directory that takes its exclusive lock.
#[derive(Copy, Clone, Debug, PartialEq, Eq, Structural)]
pub enum LockedStep {
    /// Take the exclusive lock on the install path; this may wait.
    LockExclusive,
    /// Open a catalog transaction.
    BeginTransaction,
    /// Add the directory to the catalog.
    InsertDirectory,
    /// Read the directory's flag from the catalog.
    ReadInstalled,
    /// Run the install to its end.
    Install,
    /// Commit the catalog transaction.
    CommitTransaction,
    /// Give the lock up.
    Unlock,
}

/// The steps that add a new directory. The lock is taken before the
/// transaction opens, so that no transaction is held while waiting for a
/// lock, and the transaction commits before the lock is given up; two
/// processes that do the same can then not wait for each other.
pub open spec fn insertion_steps() -> Seq<LockedStep> {
    seq![
        LockedStep::LockExclusive,
        LockedStep::BeginTransaction,
        LockedStep::InsertDirectory,
        LockedStep::CommitTransaction,
        LockedStep::Unlock,
    ]
}

/// The steps of an install into a directory: the whole of it, from reading
/// the flag to the end of the commit or the rollback, is done under the
/// exclusive lock.
pub open spec fn install_steps() -> Seq<LockedStep> {
    seq![
        LockedStep::LockExclusive,
        LockedStep::ReadInstalled,
        LockedStep::Install,
        LockedStep::Unlock,
    ]
}

impl DirectoryTarget {
    /// What is to be done before the install can start: nothing for a
    /// directory that the catalog has; for a new one, the steps that add it.
    pub fn steps(&self) -> (steps: Vec<LockedStep>)
        ensures
            steps@ == match self {
                DirectoryTarget::Existing(_) => Seq::<LockedStep>::empty(),
                DirectoryTarget::New(_) => insertion_steps(),
            },
    {
        let mut steps: Vec<LockedStep> = Vec::new();
        if let DirectoryTarget::New(_) = self {
            steps.push(LockedStep::LockExclusive);
            steps.push(LockedStep::BeginTransaction);
            steps.push(LockedStep::InsertDirectory);
            steps.push(LockedStep::CommitTransaction);
            steps.push(LockedStep::Unlock);
            assert(steps@ =~= insertion_steps());
        }
        steps
    }
}

impl PackageInstaller {
    /// The steps of the install, in order.
    pub fn steps(&self) -> (steps: Vec<LockedStep>)
        ensures
            steps@ == install_steps(),
    {
        let mut steps: Vec<LockedStep> = Vec::new();
        steps.push(LockedStep::LockExclusive);
        steps.push(LockedStep::ReadInstalled);
        steps.push(LockedStep::Install);
        steps.push(LockedStep::Unlock);
        assert(steps@ =~= install_steps());
        steps
    }
}

} // verus!
