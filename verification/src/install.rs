use crate::catalog::{DirectoryRow, NewInstalledFile};
use crate::events::{
    count_kind, kinds_of, lemma_count_add, EventKind, FailureReason, Journal, JournalEvent,
    Timestamp,
};
use crate::file_hash::{blake3_digest, FileHash};
use vstd::prelude::*;

verus! {

/// A file that the build left in the staging area.
#[derive(Clone, Debug, PartialEq, Eq)]
pub struct TempInstalledFile {
    /// The file's name under the install tree.
    pub name: String,
    /// Where the build left the file.
    pub temp_path: String,
    /// More about the file, as JSON.
    pub metadata: String,
    /// Whether the file is an executable that gets a launcher.
    pub is_binary: bool,
}

/// What a build produced.
#[derive(Clone, Debug, PartialEq, Eq)]
pub struct TempInstalledPackage {
    pub installed_files: Vec<TempInstalledFile>,
    /// More about the installation, as JSON.
    pub metadata: String,
}

/// The names of the binaries among the files of a build, in order.
pub open spec fn binaries_among(files: Seq<TempInstalledFile>) -> Seq<String> {
    files.filter_map(
        |f: TempInstalledFile|
            if f.is_binary {
                Some(f.name)
            } else {
                None
            },
    )
}

impl TempInstalledPackage {
    /// The names of the binaries that the build produced: the files for
    /// which a launcher is made later.
    pub fn binaries(&self) -> (names: Vec<String>)
        ensures
            names@ == binaries_among(self.installed_files@),
    {
        let mut names: Vec<String> = Vec::new();
        let mut i: usize = 0;
        while i < self.installed_files.len()
            invariant
                i <= self.installed_files.len(),
                names@ == binaries_among(self.installed_files@.take(i as int)),
            decreases self.installed_files.len() - i,
        {
            assert(self.installed_files@.take(i + 1).drop_last() =~= self.installed_files@.take(
                i as int,
            ));
            if self.installed_files[i].is_binary {
                names.push(self.installed_files[i].name.clone());
            }
            i += 1;
        }
        assert(self.installed_files@.take(i as int) =~= self.installed_files@);
        names
    }
}

/// How an install ended for the user.
#[derive(Clone, Debug, PartialEq, Eq)]
pub enum InstallStatus {
    Success,
    Failure(String),
    AlreadyInstalled,
}

/// How far an install has come. The numbers count the files done so far.
#[derive(Copy, Clone, Debug, PartialEq, Eq, Structural)]
pub enum Stage {
    /// The build tool runs.
    Build,
    /// The file of this number moves from where the build left it into the
    /// new tree.
    MoveFile(usize),
    /// The catalog transaction opens.
    Begin,
    /// The tree at the install path, if there is one, moves to the old tree.
    SwapOut,
    /// The new tree moves to the install path.
    SwapIn,
    /// The install row is added.
    InsertInstall,
    /// The file of this number is read under the install path, to be hashed.
    ReadFile(usize),
    /// The row of the file of this number is added.
    InsertFile(usize),
    /// The directory is marked installed.
    SetInstalled,
    /// The catalog transaction commits.
    Commit,
    /// The install is over, in success or not.
    Finished,
}

/// What the caller is to do next for an install.
#[derive(Clone, Debug, PartialEq, Eq)]
pub enum Action {
    /// Run the build tool.
    Build,
    /// Move the file at `from` to `name` under the directory `into`.
    MoveFile { from: String, into: String, name: String },
    /// Open a catalog transaction.
    BeginTransaction,
    /// Move the tree at `from` to `to`; that there is none at `from` is no
    /// failure.
    MoveAway { from: String, to: String },
    /// Move the tree at `from` to `to`.
    MoveIn { from: String, to: String },
    /// Add the install row and report its id.
    InsertInstall { directory_id: i64, install_time: Timestamp, metadata: String },
    /// Read the file `name` under the directory `dir` and report its content.
    ReadFile { dir: String, name: String },
    /// Add the row of a file.
    InsertFile { install_id: i64, file: NewInstalledFile },
    /// Mark the directory installed.
    SetInstalled { directory_id: i64 },
    /// Commit the catalog transaction, which has written the install row,
    /// these files and the flag.
    Commit { directory_id: i64, install_time: Timestamp, metadata: String, files: Vec<
        NewInstalledFile,
    > },
    /// Nothing: the install is over.
    Nothing,
}

/// What came of the action that the caller was asked for.
#[derive(Clone, Debug, PartialEq, Eq)]
pub enum Event {
    /// The build tool succeeded and left these files.
    Built(TempInstalledPackage),
    /// The build tool failed, with this report.
    BuildFailed(String),
    /// The action was done.
    Done,
    /// The install row was added under this id.
    Inserted(i64),
    /// The file was read and has this content.
    Content(Vec<u8>),
    /// The action failed, with this report.
    Failed(String),
}

/// How an install ended.
pub enum Ending {
    /// The install was committed.
    Success,
    /// The build tool failed, with this report.
    Failure(Seq<char>),
    /// The install was given up, with this report.
    Aborted(Seq<char>),
}

/// What an install in progress holds.
pub struct GuardView {
    pub row: DirectoryRow,
    pub install_path: Seq<char>,
    pub force: bool,
    pub start_time: Timestamp,
    pub new_dir: Seq<char>,
    pub old_dir: Seq<char>,
    pub stage: Stage,
    pub files: Seq<TempInstalledFile>,
    pub metadata: Seq<char>,
    pub install_time: Timestamp,
    pub install_id: i64,
    /// The digests of the files read so far.
    pub hashes: Seq<Seq<u8>>,
    pub ending: Option<Ending>,
}

impl GuardView {
    /// Whether the install is over. A finished install takes no further
    /// step and writes no further event.
    pub open spec fn finished(self) -> bool {
        self.stage == Stage::Finished
    }

    /// Whether the numbers in the stage fit the files, and an ending is
    /// known exactly when the install is over.
    pub open spec fn wf(self) -> bool {
        &&& match self.stage {
            Stage::MoveFile(i) => i < self.files.len() && self.hashes.len() == 0,
            Stage::ReadFile(i) => i < self.files.len() && self.hashes.len() == i,
            Stage::InsertFile(i) => i < self.files.len() && self.hashes.len() == i + 1,
            Stage::SetInstalled | Stage::Commit => self.hashes.len() == self.files.len(),
            Stage::Finished => true,
            _ => self.hashes.len() == 0,
        }
        &&& self.finished() <==> self.ending is Some
        &&& self.files.len() <= usize::MAX
    }

    /// The stage at which the next file moves, or the transaction opens
    /// when `done` files have moved and none is left.
    pub open spec fn moving(self, done: int) -> Stage {
        if done < self.files.len() {
            Stage::MoveFile(done as usize)
        } else {
            Stage::Begin
        }
    }

    /// The stage at which the next file is read, or the directory is marked
    /// when `done` files have their rows and none is left.
    pub open spec fn recording(self, done: int) -> Stage {
        if done < self.files.len() {
            Stage::ReadFile(done as usize)
        } else {
            Stage::SetInstalled
        }
    }

    /// The install, over with this ending.
    pub open spec fn ended(self, ending: Ending) -> GuardView {
        GuardView { stage: Stage::Finished, ending: Some(ending), ..self }
    }

    /// The install after an event, at the time `now`. Each stage goes on to
    /// the next when its action was done. A failed build ends the install
    /// as a failure; any other failure, and an event that the stage did not
    /// ask for, ends it as aborted.
    pub open spec fn advance(self, event: Event, now: Timestamp) -> GuardView {
        if self.finished() {
            self
        } else {
            match (self.stage, event) {
                (_, Event::Failed(report)) => self.ended(Ending::Aborted(report@)),
                (Stage::Build, Event::Built(package)) => {
                    let built = GuardView {
                        files: package.installed_files@,
                        metadata: package.metadata@,
                        ..self
                    };
                    GuardView { stage: built.moving(0), ..built }
                },
                (Stage::Build, Event::BuildFailed(report)) => self.ended(
                    Ending::Failure(report@),
                ),
                (Stage::MoveFile(i), Event::Done) => GuardView {
                    stage: self.moving(i + 1),
                    ..self
                },
                (Stage::Begin, Event::Done) => GuardView { stage: Stage::SwapOut, ..self },
                (Stage::SwapOut, Event::Done) => GuardView { stage: Stage::SwapIn, ..self },
                (Stage::SwapIn, Event::Done) => GuardView {
                    stage: Stage::InsertInstall,
                    install_time: now,
                    ..self
                },
                (Stage::InsertInstall, Event::Inserted(id)) => GuardView {
                    stage: self.recording(0),
                    install_id: id,
                    ..self
                },
                (Stage::ReadFile(i), Event::Content(content)) => GuardView {
                    stage: Stage::InsertFile(i),
                    hashes: self.hashes.push(blake3_digest(content@)),
                    ..self
                },
                (Stage::InsertFile(i), Event::Done) => GuardView {
                    stage: self.recording(i + 1),
                    ..self
                },
                (Stage::SetInstalled, Event::Done) => GuardView { stage: Stage::Commit, ..self },
                (Stage::Commit, Event::Done) => self.ended(Ending::Success),
                _ => self.ended(Ending::Aborted(UNEXPECTED@)),
            }
        }
    }

    /// The install after a rollback for `reason`: over, unless it was over
    /// before.
    pub open spec fn rolled_back(self, reason: FailureReason) -> GuardView {
        if self.finished() {
            self
        } else {
            match reason {
                FailureReason::ProcessFailed { metadata } => self.ended(Ending::Failure(metadata@)),
                FailureReason::Aborted { metadata } => self.ended(Ending::Aborted(metadata@)),
            }
        }
    }

    /// The install after its guard was let go: rolled back as aborted,
    /// unless it was over before.
    pub open spec fn abandoned(self) -> GuardView {
        if self.finished() {
            self
        } else {
            self.ended(Ending::Aborted(TRANSACTION_DROPPED@))
        }
    }

    /// The kind of the event that a step writes which takes the install
    /// from `self` to `after`: none unless the step ends the install.
    pub open spec fn written(self, after: GuardView) -> Seq<EventKind> {
        if !self.finished() && after.finished() {
            match after.ending {
                Some(Ending::Success) => seq![EventKind::InstallSuccess],
                _ => seq![EventKind::InstallFailed],
            }
        } else {
            Seq::empty()
        }
    }

    /// Whether `event` is what the journal gets when the install ends at
    /// the time `now`: an `install_success`, or an `install_failed` with
    /// the reason, each with the package, the force flag and the times.
    pub open spec fn ends_with(self, event: JournalEvent, now: Timestamp) -> bool {
        match self.ending {
            Some(Ending::Success) => event == (JournalEvent::InstallSuccess {
                package: self.row.package,
                force: self.force,
                start_time: self.start_time,
                end_time: now,
            }),
            Some(Ending::Failure(report)) => {
                &&& event matches JournalEvent::InstallFailed {
                    package,
                    force,
                    start_time,
                    end_time,
                    reason,
                }
                &&& package == self.row.package
                &&& force == self.force
                &&& start_time == self.start_time
                &&& end_time == now
                &&& reason matches FailureReason::ProcessFailed { metadata }
                &&& metadata@ == report
            },
            Some(Ending::Aborted(report)) => {
                &&& event matches JournalEvent::InstallFailed {
                    package,
                    force,
                    start_time,
                    end_time,
                    reason,
                }
                &&& package == self.row.package
                &&& force == self.force
                &&& start_time == self.start_time
                &&& end_time == now
                &&& reason matches FailureReason::Aborted { metadata }
                &&& metadata@ == report
            },
            None => false,
        }
    }
}

/// Whether a step from `before` to `after` at the time `now` took the
/// journal from `old_journal` to `new_journal`: nothing is written unless
/// the step ends the install, and then the one event that tells how.
pub open spec fn journal_step(
    before: GuardView,
    after: GuardView,
    now: Timestamp,
    old_journal: Seq<JournalEvent>,
    new_journal: Seq<JournalEvent>,
) -> bool {
    &&& kinds_of(new_journal) == kinds_of(old_journal) + before.written(after)
    &&& if before.written(after).len() == 0 {
        new_journal == old_journal
    } else {
        &&& new_journal.len() == old_journal.len() + 1
        &&& new_journal.drop_last() == old_journal
        &&& after.ends_with(new_journal.last(), now)
    }
}

/// The report of an install that was given up without a word: its guard was
/// let go before the install was over.
pub const TRANSACTION_DROPPED: &'static str =
    "transaction dropped, likely due to a panic or signal";

/// The report of an install that was handed an event that its stage did not
/// ask for.
pub const UNEXPECTED: &'static str = "unexpected event";

/// The digests of a series of file hashes.
pub open spec fn digests(hashes: Seq<FileHash>) -> Seq<Seq<u8>> {
    hashes.map_values(|h: FileHash| h.digest())
}

/// How an install ended, as its guard keeps it.
#[derive(Clone, Debug, PartialEq, Eq)]
pub enum InstallResult {
    /// The install was committed.
    Success,
    /// The build tool failed, with this report.
    Failure(String),
    /// The install was given up, with this report.
    Aborted(String),
}

impl View for InstallResult {
    type V = Ending;

    open spec fn view(&self) -> Ending {
        match self {
            InstallResult::Success => Ending::Success,
            InstallResult::Failure(report) => Ending::Failure(report@),
            InstallResult::Aborted(report) => Ending::Aborted(report@),
        }
    }
}

/// What a commit records of file number `i`: its name, the digest of what
/// was read under the install path, its metadata, and whether it is a
/// binary.
pub open spec fn recorded(files: Seq<TempInstalledFile>, hashes: Seq<Seq<u8>>, i: int) -> (
    Seq<char>,
    Seq<u8>,
    Seq<char>,
    bool,
) {
    (files[i].name@, hashes[i], files[i].metadata@, files[i].is_binary)
}

/// Whether `file` is the row for file number `i` of an install.
pub open spec fn records(file: NewInstalledFile, view: GuardView, i: int) -> bool {
    (file.name@, file.hash.digest(), file.metadata@, file.is_binary) == recorded(
        view.files,
        view.hashes,
        i,
    )
}

/// One install in progress: what has been done of it, and with it the right
/// to go on. The install ends once, in success or by a rollback; whoever
/// lets the guard go before that must call `abandon`.
#[derive(Debug)]
pub struct InstallGuard {
    row: DirectoryRow,
    install_path: String,
    force: bool,
    start_time: Timestamp,
    new_dir: String,
    old_dir: String,
    stage: Stage,
    package: TempInstalledPackage,
    install_time: Timestamp,
    install_id: i64,
    hashes: Vec<FileHash>,
    result: Option<InstallResult>,
}

impl View for InstallGuard {
    type V = GuardView;

    closed spec fn view(&self) -> GuardView {
        GuardView {
            row: self.row,
            install_path: self.install_path@,
            force: self.force,
            start_time: self.start_time,
            new_dir: self.new_dir@,
            old_dir: self.old_dir@,
            stage: self.stage,
            files: self.package.installed_files@,
            metadata: self.package.metadata@,
            install_time: self.install_time,
            install_id: self.install_id,
            hashes: digests(self.hashes@),
            ending: match self.result {
                Some(result) => Some(result@),
                None => None,
            },
        }
    }
}

/// Each step keeps the numbers in the stage fitting the files.
pub proof fn lemma_advance_wf(view: GuardView, event: Event, now: Timestamp)
    requires
        view.wf(),
    ensures
        view.advance(event, now).wf(),
{
    if let Event::Built(package) = event {
        assert(package.installed_files@.len() == package.installed_files.len());
    }
}

impl InstallGuard {
    /// Starts an install of the directory `row` into `install_path`, with
    /// `new_dir` and `old_dir` as the staging trees, and writes
    /// `install_started` to the journal. The directory's flag is left as it
    /// is: a forced install that fails keeps the old tree.
    pub fn new(
        row: DirectoryRow,
        install_path: &str,
        force: bool,
        now: Timestamp,
        new_dir: &str,
        old_dir: &str,
        journal: &mut Journal,
    ) -> (guard: Self)
        ensures
            guard@ == (GuardView {
                row,
                install_path: install_path@,
                force,
                start_time: now,
                new_dir: new_dir@,
                old_dir: old_dir@,
                stage: Stage::Build,
                files: Seq::empty(),
                metadata: Seq::empty(),
                install_time: now,
                install_id: 0,
                hashes: Seq::empty(),
                ending: None,
            }),
            guard@.wf(),
            final(journal)@.len() == old(journal)@.len() + 1,
            final(journal)@.drop_last() == old(journal)@,
            kinds_of(final(journal)@) == kinds_of(old(journal)@).push(EventKind::InstallStarted),
            final(journal)@.last() matches JournalEvent::InstallStarted {
                package,
                force: f,
                start_time,
                new_dir: n,
                old_dir: o,
            } && package == row.package && f == force && start_time == now && n@ == new_dir@ && o@
                == old_dir@,
    {
        let ghost before = journal@;
        journal.log(
            JournalEvent::InstallStarted {
                package: row.package.duplicate(),
                force,
                start_time: now,
                new_dir: new_dir.to_owned(),
                old_dir: old_dir.to_owned(),
            },
        );
        assert(journal@.drop_last() =~= before);
        assert(kinds_of(journal@) =~= kinds_of(before).push(EventKind::InstallStarted));
        let guard = InstallGuard {
            row,
            install_path: install_path.to_owned(),
            force,
            start_time: now,
            new_dir: new_dir.to_owned(),
            old_dir: old_dir.to_owned(),
            stage: Stage::Build,
            package: TempInstalledPackage { installed_files: Vec::new(), metadata: String::new() },
            install_time: now,
            install_id: 0,
            hashes: Vec::new(),
            result: None,
        };
        assert(guard@.hashes =~= Seq::empty());
        guard
    }

    /// The directory that is being installed.
    pub fn row(&self) -> (row: &DirectoryRow)
        ensures
            *row == self@.row,
    {
        &self.row
    }

    /// How far the install has come.
    pub fn stage(&self) -> (stage: Stage)
        ensures
            stage == self@.stage,
    {
        self.stage
    }

    /// Whether the install is over.
    pub fn is_finished(&self) -> (finished: bool)
        ensures
            finished == self@.finished(),
    {
        self.stage == Stage::Finished
    }

    /// How the install ended, once it is over: `Ok` with the status for the
    /// user, or `Err` with the report of an install that was given up.
    pub fn result(&self) -> (result: Option<Result<InstallStatus, String>>)
        ensures
            match self@.ending {
                None => result is None,
                Some(Ending::Success) => result == Some(
                    Ok::<InstallStatus, String>(InstallStatus::Success),
                ),
                Some(Ending::Failure(report)) => result matches Some(
                    Ok(InstallStatus::Failure(r)),
                ) && r@ == report,
                Some(Ending::Aborted(report)) => result matches Some(Err(r)) && r@ == report,
            },
    {
        match &self.result {
            None => None,
            Some(InstallResult::Success) => Some(Ok(InstallStatus::Success)),
            Some(InstallResult::Failure(report)) => Some(
                Ok(InstallStatus::Failure(report.clone())),
            ),
            Some(InstallResult::Aborted(report)) => Some(Err(report.clone())),
        }
    }

    fn file_row(&self, i: usize) -> (file: NewInstalledFile)
        requires
            i < self@.files.len(),
            i < self@.hashes.len(),
        ensures
            records(file, self@, i as int),
    {
        let built = &self.package.installed_files[i];
        NewInstalledFile {
            name: built.name.clone(),
            hash: self.hashes[i].duplicate(),
            metadata: built.metadata.clone(),
            is_binary: built.is_binary,
        }
    }

    /// What the caller is to do next. The moves come before the
    /// transaction opens; within it, the old tree moves out, the new one in,
    /// the install row is added, then a row for each file after the file
    /// was read, then the directory is marked installed, and last the
    /// transaction commits.
    pub fn next_action(&self) -> (action: Action)
        requires
            self@.wf(),
        ensures
            match self@.stage {
                Stage::Build => action == Action::Build,
                Stage::MoveFile(i) => action matches Action::MoveFile { from, into, name } && from@
                    == self@.files[i as int].temp_path@ && into@ == self@.new_dir && name@
                    == self@.files[i as int].name@,
                Stage::Begin => action == Action::BeginTransaction,
                Stage::SwapOut => action matches Action::MoveAway { from, to } && from@
                    == self@.install_path && to@ == self@.old_dir,
                Stage::SwapIn => action matches Action::MoveIn { from, to } && from@
                    == self@.new_dir && to@ == self@.install_path,
                Stage::InsertInstall => action matches Action::InsertInstall {
                    directory_id,
                    install_time,
                    metadata,
                } && directory_id == self@.row.directory_id && install_time == self@.install_time
                    && metadata@ == self@.metadata,
                Stage::ReadFile(i) => action matches Action::ReadFile { dir, name } && dir@
                    == self@.install_path && name@ == self@.files[i as int].name@,
                Stage::InsertFile(i) => action matches Action::InsertFile { install_id, file }
                    && install_id == self@.install_id && records(file, self@, i as int),
                Stage::SetInstalled => action == (Action::SetInstalled {
                    directory_id: self@.row.directory_id,
                }),
                Stage::Commit => action matches Action::Commit {
                    directory_id,
                    install_time,
                    metadata,
                    files,
                } && directory_id == self@.row.directory_id && install_time == self@.install_time
                    && metadata@ == self@.metadata && files@.len() == self@.files.len() && forall|
                    i: int,
                | 0 <= i < files@.len() ==> records(#[trigger] files@[i], self@, i),
                Stage::Finished => action == Action::Nothing,
            },
    {
        match self.stage {
            Stage::Build => Action::Build,
            Stage::MoveFile(i) => {
                let built = &self.package.installed_files[i];
                Action::MoveFile {
                    from: built.temp_path.clone(),
                    into: self.new_dir.clone(),
                    name: built.name.clone(),
                }
            },
            Stage::Begin => Action::BeginTransaction,
            Stage::SwapOut => Action::MoveAway {
                from: self.install_path.clone(),
                to: self.old_dir.clone(),
            },
            Stage::SwapIn => Action::MoveIn {
                from: self.new_dir.clone(),
                to: self.install_path.clone(),
            },
            Stage::InsertInstall => Action::InsertInstall {
                directory_id: self.row.directory_id,
                install_time: self.install_time,
                metadata: self.package.metadata.clone(),
            },
            Stage::ReadFile(i) => Action::ReadFile {
                dir: self.install_path.clone(),
                name: self.package.installed_files[i].name.clone(),
            },
            Stage::InsertFile(i) => Action::InsertFile {
                install_id: self.install_id,
                file: self.file_row(i),
            },
            Stage::SetInstalled => Action::SetInstalled { directory_id: self.row.directory_id },
            Stage::Commit => {
                let mut files: Vec<NewInstalledFile> = Vec::new();
                let mut i: usize = 0;
                while i < self.package.installed_files.len()
                    invariant
                        i <= self.package.installed_files.len(),
                        self@.hashes.len() == self@.files.len(),
                        self@.files == self.package.installed_files@,
                        files@.len() == i,
                        forall|j: int| 0 <= j < i ==> records(#[trigger] files@[j], self@, j),
                    decreases self.package.installed_files.len() - i,
                {
                    let file = self.file_row(i);
                    files.push(file);
                    i += 1;
                }
                Action::Commit {
                    directory_id: self.row.directory_id,
                    install_time: self.install_time,
                    metadata: self.package.metadata.clone(),
                    files,
                }
            },
            Stage::Finished => Action::Nothing,
        }
    }

    fn end(&mut self, result: InstallResult, now: Timestamp, journal: &mut Journal)
        requires
            !old(self)@.finished(),
            old(self)@.wf(),
        ensures
            final(self)@ == old(self)@.ended(result@),
            final(self)@.wf(),
            journal_step(old(self)@, final(self)@, now, old(journal)@, final(journal)@),
    {
        let ghost before = journal@;
        let package = self.row.package.duplicate();
        let event = match &result {
            InstallResult::Success => JournalEvent::InstallSuccess {
                package,
                force: self.force,
                start_time: self.start_time,
                end_time: now,
            },
            InstallResult::Failure(report) => JournalEvent::InstallFailed {
                package,
                force: self.force,
                start_time: self.start_time,
                end_time: now,
                reason: FailureReason::ProcessFailed { metadata: report.clone() },
            },
            InstallResult::Aborted(report) => JournalEvent::InstallFailed {
                package,
                force: self.force,
                start_time: self.start_time,
                end_time: now,
                reason: FailureReason::Aborted { metadata: report.clone() },
            },
        };
        journal.log(event);
        self.stage = Stage::Finished;
        self.result = Some(result);
        proof {
            assert(journal@.drop_last() =~= before);
            assert(kinds_of(journal@) =~= kinds_of(before) + old(self)@.written(self@));
        }
    }

    /// Takes the install one step on: `event` tells what came of the action
    /// that `next_action` asked for, at the time `now`. The step that ends
    /// the install writes `install_success` or `install_failed` to the
    /// journal; no other step writes. A finished install stays as it is.
    pub fn advance(&mut self, event: Event, now: Timestamp, journal: &mut Journal)
        requires
            old(self)@.wf(),
        ensures
            final(self)@ == old(self)@.advance(event, now),
            final(self)@.wf(),
            journal_step(old(self)@, final(self)@, now, old(journal)@, final(journal)@),
    {
        proof {
            lemma_advance_wf(self@, event, now);
        }
        if self.stage == Stage::Finished {
            assert(kinds_of(journal@) + Seq::<EventKind>::empty() =~= kinds_of(journal@));
            return ;
        }
        let ghost start = self@;
        let ghost log = journal@;
        match event {
            Event::Failed(report) => {
                self.end(InstallResult::Aborted(report), now, journal);
                return ;
            },
            Event::Built(package) => {
                if self.stage == Stage::Build {
                    let count = package.installed_files.len();
                    self.package = package;
                    self.stage = if 0 < count {
                        Stage::MoveFile(0)
                    } else {
                        Stage::Begin
                    };
                } else {
                    self.end(InstallResult::Aborted(UNEXPECTED.to_owned()), now, journal);
                    return ;
                }
            },
            Event::BuildFailed(report) => {
                if self.stage == Stage::Build {
                    self.end(InstallResult::Failure(report), now, journal);
                } else {
                    self.end(InstallResult::Aborted(UNEXPECTED.to_owned()), now, journal);
                }
                return ;
            },
            Event::Done => {
                let count = self.package.installed_files.len();
                match self.stage {
                    Stage::MoveFile(i) => {
                        self.stage = if i + 1 < count {
                            Stage::MoveFile(i + 1)
                        } else {
                            Stage::Begin
                        };
                    },
                    Stage::Begin => {
                        self.stage = Stage::SwapOut;
                    },
                    Stage::SwapOut => {
                        self.stage = Stage::SwapIn;
                    },
                    Stage::SwapIn => {
                        self.stage = Stage::InsertInstall;
                        self.install_time = now;
                    },
                    Stage::InsertFile(i) => {
                        self.stage = if i + 1 < count {
                            Stage::ReadFile(i + 1)
                        } else {
                            Stage::SetInstalled
                        };
                    },
                    Stage::SetInstalled => {
                        self.stage = Stage::Commit;
                    },
                    Stage::Commit => {
                        self.end(InstallResult::Success, now, journal);
                        return ;
                    },
                    _ => {
                        self.end(InstallResult::Aborted(UNEXPECTED.to_owned()), now, journal);
                        return ;
                    },
                }
            },
            Event::Inserted(id) => {
                if self.stage == Stage::InsertInstall {
                    self.install_id = id;
                    self.stage = if 0 < self.package.installed_files.len() {
                        Stage::ReadFile(0)
                    } else {
                        Stage::SetInstalled
                    };
                } else {
                    self.end(InstallResult::Aborted(UNEXPECTED.to_owned()), now, journal);
                    return ;
                }
            },
            Event::Content(content) => {
                match self.stage {
                    Stage::ReadFile(i) => {
                        self.hashes.push(FileHash::of_content(content.as_slice()));
                        self.stage = Stage::InsertFile(i);
                        assert(digests(self.hashes@) =~= start.hashes.push(
                            blake3_digest(content@),
                        ));
                    },
                    _ => {
                        self.end(InstallResult::Aborted(UNEXPECTED.to_owned()), now, journal);
                        return ;
                    },
                }
            },
        }
        assert(self@ == start.advance(event, now));
        assert(kinds_of(journal@) + Seq::<EventKind>::empty() =~= kinds_of(journal@));
    }

    /// Rolls the install back for `reason`: ends it and writes
    /// `install_failed` to the journal. The tree at the install path and
    /// the directory's flag are left as they are. On a finished install
    /// this does nothing.
    pub fn rollback(&mut self, reason: FailureReason, now: Timestamp, journal: &mut Journal)
        requires
            old(self)@.wf(),
        ensures
            final(self)@ == old(self)@.rolled_back(reason),
            final(self)@.wf(),
            journal_step(old(self)@, final(self)@, now, old(journal)@, final(journal)@),
    {
        if self.stage == Stage::Finished {
            assert(kinds_of(journal@) + Seq::<EventKind>::empty() =~= kinds_of(journal@));
            return ;
        }
        match reason {
            FailureReason::ProcessFailed { metadata } => {
                self.end(InstallResult::Failure(metadata), now, journal);
            },
            FailureReason::Aborted { metadata } => {
                self.end(InstallResult::Aborted(metadata), now, journal);
            },
        }
    }

    /// Lets the guard go. An install that is not over is rolled back as
    /// aborted, as if by a panic or a signal.
    pub fn abandon(&mut self, now: Timestamp, journal: &mut Journal)
        requires
            old(self)@.wf(),
        ensures
            final(self)@ == old(self)@.abandoned(),
            final(self)@.finished(),
            final(self)@.wf(),
            journal_step(old(self)@, final(self)@, now, old(journal)@, final(journal)@),
    {
        if self.stage == Stage::Finished {
            assert(kinds_of(journal@) + Seq::<EventKind>::empty() =~= kinds_of(journal@));
            return ;
        }
        self.end(InstallResult::Aborted(TRANSACTION_DROPPED.to_owned()), now, journal);
    }
}

/// What came of moving the tree at the install path away.
#[derive(Copy, Clone, Debug, PartialEq, Eq, Structural)]
pub enum MoveOutcome {
    /// The tree was moved.
    Moved,
    /// There was no tree at the install path, as on a first install.
    SourceMissing,
    /// The move failed for another reason.
    Failed,
}

/// The event that stands for the outcome of moving the tree at `from` away
/// to `to`: that there was none to move is as good as a move; any other
/// failure is reported.
pub fn move_away_event(outcome: MoveOutcome, from: &str, to: &str) -> (event: Event)
    ensures
        outcome != MoveOutcome::Failed ==> event == Event::Done,
        outcome == MoveOutcome::Failed ==> (event matches Event::Failed(report) && report@
            == "failed to rename existing directory "@ + from@ + " to "@ + to@),
{
    match outcome {
        MoveOutcome::Moved | MoveOutcome::SourceMissing => Event::Done,
        MoveOutcome::Failed => {
            let mut report = "failed to rename existing directory ".to_owned();
            report.append(from);
            report.append(" to ");
            report.append(to);
            Event::Failed(report)
        },
    }
}

/// One step in the life of an install: an event handed to `advance`, or a
/// rollback.
pub enum GuardStep {
    Advance(Event, Timestamp),
    Rollback(FailureReason),
}

impl GuardView {
    /// The install after one step.
    pub open spec fn step(self, step: GuardStep) -> GuardView {
        match step {
            GuardStep::Advance(event, now) => self.advance(event, now),
            GuardStep::Rollback(reason) => self.rolled_back(reason),
        }
    }

    /// The install after a series of steps.
    pub open spec fn run(self, steps: Seq<GuardStep>) -> GuardView
        decreases steps.len(),
    {
        if steps.len() == 0 {
            self
        } else {
            self.run(steps.drop_last()).step(steps.last())
        }
    }

    /// The kinds of the events that a series of steps writes, in order.
    pub open spec fn run_written(self, steps: Seq<GuardStep>) -> Seq<EventKind>
        decreases steps.len(),
    {
        if steps.len() == 0 {
            Seq::empty()
        } else {
            self.run_written(steps.drop_last()) + self.run(steps.drop_last()).written(
                self.run(steps),
            )
        }
    }

    /// The kinds of all the events of one install: `install_started` from
    /// its start, what its steps write, and what letting the guard go
    /// writes at the end.
    pub open spec fn life_written(self, steps: Seq<GuardStep>) -> Seq<EventKind> {
        seq![EventKind::InstallStarted] + self.run_written(steps) + self.run(steps).written(
            self.run(steps).abandoned(),
        )
    }
}

/// Rolling back twice is rolling back once: the second rollback leaves the
/// install as the first left it and writes nothing to the journal. The same
/// holds of letting the guard go after a rollback.
pub proof fn lemma_rollback_idempotent(view: GuardView, first: FailureReason, second: FailureReason)
    ensures
        view.rolled_back(first).rolled_back(second) == view.rolled_back(first),
        view.rolled_back(first).written(view.rolled_back(first).rolled_back(second)).len() == 0,
        view.rolled_back(first).abandoned() == view.rolled_back(first),
        view.rolled_back(first).written(view.rolled_back(first).abandoned()).len() == 0,
{
}

proof fn lemma_run(start: GuardView, steps: Seq<GuardStep>)
    requires
        start.wf(),
    ensures
        start.run(steps).wf(),
        start.finished() ==> start.run(steps) == start && start.run_written(steps).len() == 0,
        !start.run(steps).finished() ==> start.run_written(steps).len() == 0,
        !start.finished() && start.run(steps).finished() ==> {
            &&& start.run_written(steps) == start.written(start.run(steps))
            &&& start.run_written(steps).len() == 1
        },
    decreases steps.len(),
{
    if steps.len() > 0 {
        let before = start.run(steps.drop_last());
        lemma_run(start, steps.drop_last());
        match steps.last() {
            GuardStep::Advance(event, now) => {
                lemma_advance_wf(before, event, now);
            },
            GuardStep::Rollback(reason) => {},
        }
        let after = start.run(steps);
        assert(after == before.step(steps.last()));
        if before.finished() {
            assert(after == before);
            assert(start.run_written(steps) =~= start.run_written(steps.drop_last()));
        } else {
            assert(start.run_written(steps) =~= before.written(after));
        }
    }
}

/// Every install writes exactly one `install_started`, and exactly one of
/// `install_success` and `install_failed`: `install_success` where it was
/// committed, `install_failed` where it failed, was rolled back or was let
/// go before its end. This holds whatever happens to it, with `steps` the
/// events and rollbacks from its start until its guard is let go.
pub proof fn lemma_one_start_one_end(start: GuardView, steps: Seq<GuardStep>)
    requires
        start.wf(),
        !start.finished(),
    ensures
        count_kind(start.life_written(steps), EventKind::InstallStarted) == 1,
        count_kind(start.life_written(steps), EventKind::InstallSuccess) + count_kind(
            start.life_written(steps),
            EventKind::InstallFailed,
        ) == 1,
        count_kind(start.life_written(steps), EventKind::InstallSuccess) == 1
            <==> start.run(steps).ending == Some(Ending::Success),
        start.life_written(steps).len() == 2,
{
    lemma_run(start, steps);
    let end = start.run(steps);
    let first = seq![EventKind::InstallStarted];
    let middle = start.run_written(steps);
    let last = end.written(end.abandoned());
    let tail = middle + last;
    assert(start.life_written(steps) =~= first + tail);
    assert(tail.len() == 1);
    let kind = tail[0];
    assert(tail =~= seq![kind]);
    assert(kind == EventKind::InstallSuccess || kind == EventKind::InstallFailed);
    assert(kind == EventKind::InstallSuccess <==> end.ending == Some(Ending::Success));
    lemma_count_one(EventKind::InstallStarted, EventKind::InstallStarted);
    lemma_count_one(EventKind::InstallStarted, EventKind::InstallSuccess);
    lemma_count_one(EventKind::InstallStarted, EventKind::InstallFailed);
    lemma_count_one(kind, EventKind::InstallStarted);
    lemma_count_one(kind, EventKind::InstallSuccess);
    lemma_count_one(kind, EventKind::InstallFailed);
    lemma_count_add(first, tail, EventKind::InstallStarted);
    lemma_count_add(first, tail, EventKind::InstallSuccess);
    lemma_count_add(first, tail, EventKind::InstallFailed);
}

/// Whether the stage comes behind the adding of the install row and before
/// the end of the commit.
pub open spec fn behind_install_row(stage: Stage) -> bool {
    match stage {
        Stage::ReadFile(_) | Stage::InsertFile(_) | Stage::SetInstalled | Stage::Commit => true,
        _ => false,
    }
}

/// Whether, in the course of `steps`, the install stood at the adding of
/// the install row and was told that the row is in.
pub open spec fn row_was_inserted(start: GuardView, steps: Seq<GuardStep>) -> bool {
    exists|k: int|
        0 <= k < steps.len() && (#[trigger] start.run(steps.take(k))).stage == Stage::InsertInstall
            && steps[k] matches GuardStep::Advance(Event::Inserted(_), _)
}

/// The directory is marked installed only behind its install row: an
/// install that began with the build and stands at the marking, at the
/// commit or at a file's row has been told before that the install row is
/// in, and so has one that ended in success. The marking and the row are
/// written in one transaction, so the catalog never shows the flag without
/// the row.
pub proof fn lemma_flag_follows_row(start: GuardView, steps: Seq<GuardStep>)
    requires
        start.wf(),
        start.stage == Stage::Build,
    ensures
        behind_install_row(start.run(steps).stage) || start.run(steps).ending == Some(
            Ending::Success,
        ) ==> row_was_inserted(start, steps),
    decreases steps.len(),
{
    let end = start.run(steps);
    if steps.len() > 0 && (behind_install_row(end.stage) || end.ending == Some(Ending::Success)) {
        let earlier = steps.drop_last();
        let before = start.run(earlier);
        lemma_run(start, earlier);
        lemma_flag_follows_row(start, earlier);
        assert(end == before.step(steps.last()));
        if behind_install_row(before.stage) || before.ending == Some(Ending::Success) {
            let k = choose|k: int|
                0 <= k < earlier.len() && (#[trigger] start.run(earlier.take(k))).stage
                    == Stage::InsertInstall && earlier[k] matches GuardStep::Advance(
                    Event::Inserted(_),
                    _,
                );
            assert(steps.take(k) =~= earlier.take(k));
            assert(steps[k] == earlier[k]);
        } else {
            assert(before.stage == Stage::InsertInstall);
            assert(steps.take(steps.len() - 1) =~= earlier);
            assert(steps[steps.len() - 1] matches GuardStep::Advance(Event::Inserted(_), _));
        }
    }
}

proof fn lemma_count_one(held: EventKind, kind: EventKind)
    ensures
        count_kind(seq![held], kind) == if held == kind {
            1nat
        } else {
            0nat
        },
{
    assert(seq![held].drop_last() =~= Seq::<EventKind>::empty());
    assert(count_kind(Seq::<EventKind>::empty(), kind) == 0);
}

} // verus!
