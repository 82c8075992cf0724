use hasp::catalog::{
    Catalog, CatalogError, DirectoryRow, InstalledFileRecord, NewInstalledFile, RowError,
};
use hasp::directory::CargoDirectory;
use hasp::directory_hash::DirectoryHash;
use hasp::directory_version::DirectoryVersion;
use hasp::events::{EventKind, FailureReason, Journal, JournalEvent, Timestamp};
use hasp::file_hash::FileHash;
use hasp::install::{
    Action, Event, InstallGuard, InstallStatus, Stage, TempInstalledFile, TempInstalledPackage,
    TRANSACTION_DROPPED,
};
use hasp::layout::{lock_file_name, make_install_path};
use hasp::locks::{LockMode, LockTable};
use hasp::pipeline::{
    status_if_installed, CargoMatcher, DirectoryTarget, InstallDecision, PackageInstaller,
    PackageMatcher,
};
use hasp::version::SemVersion;
use hasp::version_req::DirectoryVersionReq;

const H1: u64 = 0x6e21_655f_b634_00ba;

fn at(millis: i64) -> Timestamp {
    Timestamp { millis }
}

fn ripgrep_matcher() -> PackageMatcher {
    let req = DirectoryVersionReq::from_semver_text("=13.0.0").expect("a requirement");
    PackageMatcher::new(
        CargoMatcher::new(CargoDirectory { default_features: true }),
        "ripgrep".to_owned(),
        req,
    )
}

fn ripgrep_package() -> TempInstalledPackage {
    TempInstalledPackage {
        installed_files: vec![
            TempInstalledFile {
                name: "Cargo.lock".to_owned(),
                temp_path: "/cache/install-x/fetch/ripgrep-13.0.0/Cargo.lock".to_owned(),
                metadata: "null".to_owned(),
                is_binary: false,
            },
            TempInstalledFile {
                name: "rg".to_owned(),
                temp_path: "/cache/install-x/fetch/ripgrep-13.0.0/target/release/rg".to_owned(),
                metadata: "null".to_owned(),
                is_binary: true,
            },
        ],
        metadata: "null".to_owned(),
    }
}

/// Finds the directory for the target, adding it where the catalog has none.
fn directory_for(matcher: &PackageMatcher, catalog: &mut Catalog) -> DirectoryRow {
    let version = DirectoryVersion::new_semantic(SemVersion::new(13, 0, 0));
    let known = catalog.match_by_version(matcher.namespace(), matcher.name(), &version);
    let fetcher = matcher.clone().make_resolver().make_fetcher(version);
    match fetcher.fetch(known) {
        DirectoryTarget::Existing(row) => row,
        DirectoryTarget::New(new) => catalog
            .insert_directory(&new.namespace, &new.name, new.hash, &new.version, &new.metadata)
            .expect("a new directory"),
    }
}

/// Plays the part of the caller: does what the guard asks for, against the
/// catalog, until the guard is finished or `stop` says to fail.
fn drive(
    guard: &mut InstallGuard,
    catalog: &mut Catalog,
    journal: &mut Journal,
    build: Result<TempInstalledPackage, String>,
    fail_at: Option<Stage>,
) -> Vec<Action> {
    let mut actions = Vec::new();
    let mut build = Some(build);
    let mut now = 1000;
    while !guard.is_finished() {
        let stage = guard.stage();
        let action = guard.next_action();
        actions.push(action.clone());
        now += 1;
        if fail_at == Some(stage) {
            guard.advance(Event::Failed("disk full".to_owned()), at(now), journal);
            continue;
        }
        let event = match action {
            Action::Build => match build.take().expect("one build") {
                Ok(package) => Event::Built(package),
                Err(report) => Event::BuildFailed(report),
            },
            Action::InsertInstall { .. } => Event::Inserted(catalog.install_count() as i64 + 1),
            Action::ReadFile { name, .. } => Event::Content(name.into_bytes()),
            Action::Commit { directory_id, install_time, metadata, files } => {
                match catalog.commit_install(directory_id, install_time, &metadata, files) {
                    Ok(_) => Event::Done,
                    Err(e) => Event::Failed(e.to_text()),
                }
            }
            Action::Nothing => unreachable!(),
            _ => Event::Done,
        };
        guard.advance(event, at(now), journal);
    }
    actions
}

fn start(row: &DirectoryRow, journal: &mut Journal) -> InstallGuard {
    InstallGuard::new(
        row.clone(),
        "/home/installs/cargo/ripgrep/6e21655fb63400ba",
        false,
        at(1000),
        "/cache/install-x/install-new",
        "/cache/install-x/install-old",
        journal,
    )
}

#[test]
fn fresh_install() {
    let mut catalog = Catalog::new();
    let mut journal = Journal::new();
    let matcher = ripgrep_matcher();

    let installed = catalog.match_installed(matcher.namespace(), matcher.name());
    assert_eq!(status_if_installed(&matcher.best_installed_match(installed)), None);

    let row = directory_for(&matcher, &mut catalog);
    assert_eq!(row.directory_id, 1);
    assert_eq!(row.package.hash, DirectoryHash::new(H1));
    assert_eq!(row.package.metadata, "{\"default-features\":true}");
    assert_eq!(row.package.version.to_text(), "sem:13.0.0");
    assert_eq!(
        make_install_path(&row.package.namespace, &row.package.name, row.package.hash),
        vec!["installs", "cargo", "ripgrep", "6e21655fb63400ba"]
    );
    assert_eq!(catalog.get_installed(1), Some(false));

    let installer = PackageInstaller::new(row.clone());
    assert_eq!(installer.install(false, false), InstallDecision::Start);
    let mut guard = start(&row, &mut journal);
    let actions = drive(&mut guard, &mut catalog, &mut journal, Ok(ripgrep_package()), None);
    guard.abandon(at(9999), &mut journal);

    assert_eq!(guard.result(), Some(Ok(InstallStatus::Success)));
    assert_eq!(catalog.get_installed(1), Some(true));
    assert_eq!(catalog.install_count(), 1);
    let files = catalog.installed_files(1);
    assert_eq!(files.len(), 2);
    assert_eq!(files[1].name, "rg");
    assert!(files[1].is_binary);
    assert_eq!(files[1].hash, FileHash::of_content(b"rg"));
    assert!(files[1].hash.to_text().starts_with("blake3:"));
    assert!(!files[0].is_binary);

    assert_eq!(journal.len(), 2);
    assert_eq!(journal.count(EventKind::InstallStarted), 1);
    assert_eq!(journal.count(EventKind::InstallSuccess), 1);
    assert_eq!(journal.count(EventKind::InstallFailed), 0);

    // The order of the commit.
    let kinds: Vec<&str> = actions
        .iter()
        .map(|a| match a {
            Action::Build => "build",
            Action::MoveFile { .. } => "move-file",
            Action::BeginTransaction => "begin",
            Action::MoveAway { .. } => "move-away",
            Action::MoveIn { .. } => "move-in",
            Action::InsertInstall { .. } => "insert-install",
            Action::ReadFile { .. } => "read-file",
            Action::InsertFile { .. } => "insert-file",
            Action::SetInstalled { .. } => "set-installed",
            Action::Commit { .. } => "commit",
            Action::Nothing => "nothing",
        })
        .collect();
    assert_eq!(
        kinds,
        vec![
            "build",
            "move-file",
            "move-file",
            "begin",
            "move-away",
            "move-in",
            "insert-install",
            "read-file",
            "insert-file",
            "read-file",
            "insert-file",
            "set-installed",
            "commit",
        ]
    );
    assert_eq!(
        actions[1],
        Action::MoveFile {
            from: "/cache/install-x/fetch/ripgrep-13.0.0/Cargo.lock".to_owned(),
            into: "/cache/install-x/install-new".to_owned(),
            name: "Cargo.lock".to_owned(),
        }
    );
    assert_eq!(
        actions[4],
        Action::MoveAway {
            from: "/home/installs/cargo/ripgrep/6e21655fb63400ba".to_owned(),
            to: "/cache/install-x/install-old".to_owned(),
        }
    );
    assert_eq!(
        actions[5],
        Action::MoveIn {
            from: "/cache/install-x/install-new".to_owned(),
            to: "/home/installs/cargo/ripgrep/6e21655fb63400ba".to_owned(),
        }
    );
    assert_eq!(
        actions[8],
        Action::InsertFile {
            install_id: 1,
            file: NewInstalledFile {
                name: "Cargo.lock".to_owned(),
                hash: FileHash::of_content(b"Cargo.lock"),
                metadata: "null".to_owned(),
                is_binary: false,
            },
        }
    );
    assert_eq!(actions[11], Action::SetInstalled { directory_id: 1 });
}

#[test]
fn repeat_install() {
    let mut catalog = Catalog::new();
    let mut journal = Journal::new();
    let matcher = ripgrep_matcher();
    let row = directory_for(&matcher, &mut catalog);
    let mut guard = start(&row, &mut journal);
    drive(&mut guard, &mut catalog, &mut journal, Ok(ripgrep_package()), None);
    let events_before = journal.len();

    // The second request finds the installation at its first look.
    let installed = catalog.match_installed(matcher.namespace(), matcher.name());
    assert_eq!(installed.len(), 1);
    let best = matcher.best_installed_match(installed);
    assert_eq!(best.as_ref().map(|b| b.install_id), Some(1));
    assert_eq!(status_if_installed(&best), Some(InstallStatus::AlreadyInstalled));

    // And under the lock the directory counts as installed.
    let again = directory_for(&matcher, &mut catalog);
    assert_eq!(again, row);
    let installed_now = catalog.get_installed(again.directory_id).expect("a directory");
    assert_eq!(
        PackageInstaller::new(again).install(installed_now, false),
        InstallDecision::AlreadyInstalled
    );
    assert_eq!(catalog.install_count(), 1);
    assert_eq!(catalog.directory_count(), 1);
    assert_eq!(journal.len(), events_before);
    assert_eq!(journal.count(EventKind::InstallStarted), 1);
}

#[test]
fn build_failure() {
    let mut catalog = Catalog::new();
    let mut journal = Journal::new();
    let matcher = ripgrep_matcher();
    let row = directory_for(&matcher, &mut catalog);
    let mut guard = start(&row, &mut journal);
    let actions = drive(
        &mut guard,
        &mut catalog,
        &mut journal,
        Err("cargo build exited with 101".to_owned()),
        None,
    );
    assert_eq!(actions, vec![Action::Build]);
    assert_eq!(
        guard.result(),
        Some(Ok(InstallStatus::Failure("cargo build exited with 101".to_owned())))
    );
    assert_eq!(catalog.get_installed(row.directory_id), Some(false));
    assert_eq!(catalog.install_count(), 0);
    assert!(catalog.match_installed("cargo", "ripgrep").is_empty());
    assert_eq!(journal.len(), 2);
    match journal.event_at(1).expect("an event") {
        JournalEvent::InstallFailed { package, force, start_time, end_time, reason } => {
            assert_eq!(package, &row.package);
            assert!(!force);
            assert_eq!(*start_time, at(1000));
            assert_eq!(*end_time, at(1001));
            assert_eq!(
                reason,
                &FailureReason::ProcessFailed { metadata: "cargo build exited with 101".to_owned() }
            );
        }
        other => panic!("unexpected event {:?}", other),
    }
    // No step asked for the install path to be touched.
    assert!(!actions.iter().any(|a| matches!(a, Action::MoveIn { .. } | Action::MoveAway { .. })));
}

#[test]
fn concurrent_same_target() {
    let mut catalog = Catalog::new();
    let mut journal = Journal::new();
    let mut locks = LockTable::new();
    let matcher = ripgrep_matcher();
    let row = directory_for(&matcher, &mut catalog);
    let lock = lock_file_name(row.package.hash);
    assert_eq!(lock, "6e21655fb63400ba.lock");

    // Both want the exclusive lock; one gets it.
    assert!(locks.try_lock(1, &lock, LockMode::Exclusive));
    assert!(!locks.try_lock(2, &lock, LockMode::Exclusive));
    assert!(!locks.try_lock(2, &lock, LockMode::Shared));
    assert!(locks.holds_exclusive(1, &lock));
    assert!(!locks.holds_exclusive(2, &lock));

    let mut first = start(&row, &mut journal);
    drive(&mut first, &mut catalog, &mut journal, Ok(ripgrep_package()), None);
    assert!(locks.unlock(1, &lock));
    assert!(!locks.unlock(1, &lock));

    // The other goes on under the lock and finds the work done.
    assert!(locks.try_lock(2, &lock, LockMode::Exclusive));
    let installed = catalog.get_installed(row.directory_id).expect("a directory");
    assert_eq!(
        PackageInstaller::new(row.clone()).install(installed, false),
        InstallDecision::AlreadyInstalled
    );
    assert!(locks.unlock(2, &lock));
    assert_eq!(journal.count(EventKind::InstallSuccess), 1);
    assert_eq!(catalog.install_count(), 1);

    // Forced, it does the work again: a second installation of one directory.
    assert_eq!(PackageInstaller::new(row.clone()).install(installed, true), InstallDecision::Start);
    let mut second = start(&row, &mut journal);
    drive(&mut second, &mut catalog, &mut journal, Ok(ripgrep_package()), None);
    assert_eq!(journal.count(EventKind::InstallSuccess), 2);
    assert_eq!(catalog.install_count(), 2);
    assert_eq!(catalog.directory_count(), 1);
    assert_eq!(catalog.get_installed(row.directory_id), Some(true));
}

#[test]
fn shared_locks() {
    let mut locks = LockTable::new();
    assert!(locks.can_lock("a.lock", LockMode::Exclusive));
    assert!(locks.try_lock(1, "a.lock", LockMode::Shared));
    assert!(locks.try_lock(2, "a.lock", LockMode::Shared));
    assert!(!locks.try_lock(3, "a.lock", LockMode::Exclusive));
    assert!(locks.try_lock(3, "b.lock", LockMode::Exclusive));
    assert!(locks.unlock(1, "a.lock"));
    assert!(!locks.can_lock("a.lock", LockMode::Exclusive));
    assert!(locks.unlock(2, "a.lock"));
    assert!(locks.try_lock(3, "a.lock", LockMode::Exclusive));
    assert!(locks.holds_exclusive(3, "a.lock"));
    assert!(locks.holds_exclusive(3, "b.lock"));
}

#[test]
fn cancelled_mid_build() {
    let mut catalog = Catalog::new();
    let mut journal = Journal::new();
    let matcher = ripgrep_matcher();
    let row = directory_for(&matcher, &mut catalog);
    let mut guard = start(&row, &mut journal);
    assert_eq!(guard.next_action(), Action::Build);
    // The task is cancelled while the build runs: the guard is let go.
    guard.abandon(at(1500), &mut journal);
    assert!(guard.is_finished());
    assert_eq!(guard.result(), Some(Err(TRANSACTION_DROPPED.to_owned())));
    assert_eq!(
        TRANSACTION_DROPPED,
        "transaction dropped, likely due to a panic or signal"
    );
    assert_eq!(catalog.get_installed(row.directory_id), Some(false));
    assert_eq!(journal.len(), 2);
    match journal.event_at(1).expect("an event") {
        JournalEvent::InstallFailed { reason, end_time, .. } => {
            assert_eq!(
                reason,
                &FailureReason::Aborted { metadata: TRANSACTION_DROPPED.to_owned() }
            );
            assert_eq!(*end_time, at(1500));
        }
        other => panic!("unexpected event {:?}", other),
    }
    // A finished guard refuses further steps.
    guard.advance(Event::Built(ripgrep_package()), at(1600), &mut journal);
    assert_eq!(guard.next_action(), Action::Nothing);
    assert_eq!(journal.len(), 2);
}

#[test]
fn rollback_twice_is_rollback_once() {
    let mut catalog = Catalog::new();
    let mut journal = Journal::new();
    let row = directory_for(&ripgrep_matcher(), &mut catalog);
    let mut guard = start(&row, &mut journal);
    guard.rollback(FailureReason::Aborted { metadata: "first".to_owned() }, at(1), &mut journal);
    let result = guard.result();
    assert_eq!(result, Some(Err("first".to_owned())));
    assert_eq!(journal.len(), 2);
    guard.rollback(
        FailureReason::ProcessFailed { metadata: "second".to_owned() },
        at(2),
        &mut journal,
    );
    guard.abandon(at(3), &mut journal);
    assert_eq!(guard.result(), result);
    assert_eq!(journal.len(), 2);
    assert_eq!(journal.count(EventKind::InstallFailed), 1);
    assert_eq!(catalog.get_installed(row.directory_id), Some(false));
}

#[test]
fn every_failed_step_aborts_once() {
    let stages = [
        Stage::Build,
        Stage::MoveFile(0),
        Stage::MoveFile(1),
        Stage::Begin,
        Stage::SwapOut,
        Stage::SwapIn,
        Stage::InsertInstall,
        Stage::ReadFile(0),
        Stage::InsertFile(1),
        Stage::SetInstalled,
        Stage::Commit,
    ];
    for stage in stages {
        let mut catalog = Catalog::new();
        let mut journal = Journal::new();
        let row = directory_for(&ripgrep_matcher(), &mut catalog);
        let mut guard = start(&row, &mut journal);
        drive(&mut guard, &mut catalog, &mut journal, Ok(ripgrep_package()), Some(stage));
        guard.abandon(at(5000), &mut journal);
        assert_eq!(guard.result(), Some(Err("disk full".to_owned())), "at {:?}", stage);
        assert_eq!(journal.count(EventKind::InstallStarted), 1);
        assert_eq!(journal.count(EventKind::InstallFailed), 1);
        assert_eq!(journal.count(EventKind::InstallSuccess), 0);
        assert_eq!(journal.len(), 2);
        // The catalog is as it was before the install.
        assert_eq!(catalog.get_installed(row.directory_id), Some(false));
        assert_eq!(catalog.install_count(), 0);
    }
}

#[test]
fn unexpected_event_aborts() {
    let mut catalog = Catalog::new();
    let mut journal = Journal::new();
    let row = directory_for(&ripgrep_matcher(), &mut catalog);
    let mut guard = start(&row, &mut journal);
    guard.advance(Event::Inserted(7), at(1), &mut journal);
    assert_eq!(guard.result(), Some(Err("unexpected event".to_owned())));
    assert_eq!(journal.count(EventKind::InstallFailed), 1);
}

#[test]
fn install_without_files() {
    let mut catalog = Catalog::new();
    let mut journal = Journal::new();
    let row = directory_for(&ripgrep_matcher(), &mut catalog);
    let mut guard = start(&row, &mut journal);
    let package = TempInstalledPackage { installed_files: vec![], metadata: "{}".to_owned() };
    let actions = drive(&mut guard, &mut catalog, &mut journal, Ok(package), None);
    assert_eq!(actions.len(), 7);
    assert_eq!(
        actions[4],
        Action::InsertInstall { directory_id: 1, install_time: at(1004), metadata: "{}".to_owned() }
    );
    assert_eq!(guard.result(), Some(Ok(InstallStatus::Success)));
    assert_eq!(catalog.get_installed(1), Some(true));
}

#[test]
fn catalog_rules() {
    let mut catalog = Catalog::new();
    let v1 = DirectoryVersion::new_semantic(SemVersion::new(1, 0, 0));
    let v2 = DirectoryVersion::new_literal("nightly");
    let a = catalog
        .insert_directory("cargo", "a", DirectoryHash::new(1), &v1, "{}")
        .expect("inserted");
    let b = catalog
        .insert_directory("cargo", "a", DirectoryHash::new(2), &v2, "{}")
        .expect("inserted");
    let c = catalog
        .insert_directory("pip", "a", DirectoryHash::new(1), &v1, "{}")
        .expect("inserted");
    assert_eq!((a.directory_id, b.directory_id, c.directory_id), (1, 2, 3));
    assert_eq!(
        catalog.insert_directory("cargo", "a", DirectoryHash::new(1), &v2, "null"),
        Err(CatalogError::DirectoryExists)
    );
    assert_eq!(catalog.directory_count(), 3);

    assert_eq!(catalog.match_by_name("cargo", "a"), vec![a.clone(), b.clone()]);
    assert_eq!(catalog.match_by_name("cargo", "b"), vec![]);
    assert_eq!(catalog.match_by_version("cargo", "a", &v2), vec![b.clone()]);
    assert_eq!(catalog.match_by_version("pip", "a", &v2), vec![]);
    assert!(catalog.match_installed("cargo", "a").is_empty());
    assert_eq!(catalog.get_installed(0), None);
    assert_eq!(catalog.get_installed(4), None);

    let file = |name: &str| NewInstalledFile {
        name: name.to_owned(),
        hash: FileHash::of_content(name.as_bytes()),
        metadata: "null".to_owned(),
        is_binary: true,
    };
    assert_eq!(
        catalog.commit_install(9, at(1), "null", vec![]),
        Err(CatalogError::UnknownDirectory)
    );
    assert_eq!(
        catalog.commit_install(2, at(1), "null", vec![file("x"), file("y"), file("x")]),
        Err(CatalogError::DuplicateFile)
    );
    assert_eq!(catalog.install_count(), 0);
    assert_eq!(catalog.get_installed(2), Some(false));

    assert_eq!(catalog.commit_install(2, at(1), "1", vec![file("x"), file("y")]), Ok(1));
    assert_eq!(catalog.commit_install(2, at(2), "2", vec![file("x")]), Ok(2));
    assert_eq!(catalog.commit_install(3, at(3), "3", vec![]), Ok(3));
    assert_eq!(catalog.get_installed(1), Some(false));
    assert_eq!(catalog.get_installed(2), Some(true));
    let installed = catalog.match_installed("cargo", "a");
    assert_eq!(installed.len(), 2);
    assert_eq!(installed[0].directory_row, b);
    assert_eq!((installed[0].install_id, installed[1].install_id), (1, 2));
    assert_eq!(installed[1].install_metadata, "2");
    let files = catalog.installed_files(1);
    assert_eq!(files.iter().map(|f| f.installed_file_id).collect::<Vec<_>>(), vec![1, 2]);
    assert_eq!(catalog.installed_files(2)[0].installed_file_id, 3);
    assert!(catalog.installed_files(3).is_empty());

    assert_eq!(CatalogError::Full.to_text(), "the table is full");
    assert_eq!(a.to_friendly(), "cargo:a (version sem:1.0.0, hash 0000000000000001)");
}

#[test]
fn rows_from_columns() {
    let hash = DirectoryHash::new(H1);
    let row = DirectoryRow::from_row(
        7,
        "cargo".to_owned(),
        "ripgrep".to_owned(),
        &hash.to_blob(),
        "sem:13.0.0",
        "{}".to_owned(),
    )
    .expect("a row");
    assert_eq!(row.directory_id, 7);
    assert_eq!(row.package.hash, hash);
    assert_eq!(row.package.version.to_text(), "sem:13.0.0");
    assert_eq!(row.package.metadata, "{}");

    let read = |hash: &[u8], version: &str| {
        DirectoryRow::from_row(1, "n".to_owned(), "m".to_owned(), hash, version, "{}".to_owned())
    };
    match read(&[1, 2], "13.0.0") {
        Err(RowError::Hash(e)) => {
            assert_eq!(e.to_text(), "could not parse directory hash '0102': blob length 2 is not 8")
        }
        other => panic!("unexpected {:?}", other),
    }
    match read(&hash.to_blob(), "13.0.0") {
        Err(err @ RowError::Version(_)) => assert_eq!(
            err.to_text(),
            "could not parse directory version '13.0.0': input begins with neither 'sem:' nor \
             'lit:'"
        ),
        other => panic!("unexpected {:?}", other),
    }

    let file_hash = FileHash::of_content(b"x");
    let file = InstalledFileRecord::from_row(
        3,
        2,
        "rg".to_owned(),
        &file_hash.to_blob(),
        "null".to_owned(),
        true,
    )
    .expect("a row");
    assert_eq!(file.hash, file_hash);
    assert_eq!((file.installed_file_id, file.install_id, file.is_binary), (3, 2, true));
    assert!(InstalledFileRecord::from_row(3, 2, "rg".to_owned(), b"01", "null".to_owned(), true)
        .is_err());
}
