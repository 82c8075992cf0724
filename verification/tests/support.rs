use hasp::cargo::{
    build_args, crate_file_name, extracted_dir_name, installed_files, resolve, Candidate,
    Executable, NoBinaries, ResolveError,
};
use hasp::directory::{new_directory_hash, CargoDirectory};
use hasp::directory_version::DirectoryVersion;
use hasp::events::{EventKind, Journal, JournalEvent};
use hasp::install::{move_away_event, Event, InstallStatus, MoveOutcome};
use hasp::layout::{discover, HomeChoice, HomeError, CACHE_DIR, FETCH_DIR, NEW_DIR, OLD_DIR};
use hasp::migrations::{Migration, MigrationRun, MigrationSet, RunState};
use hasp::output::{
    header_style, layer_of, level_prefix, split_message, split_once, Color, Filter, HeaderStyle,
    Layer, Level, OutputFormat, OutputKind, OutputOpts,
};
use hasp::settings::{
    connection_settings, needs_application_id, ConnectionCreator, ConnectionKind, Database,
    InitStep, Setting, APPLICATION_ID,
};
use hasp::summary::{
    already_installed_listing, already_installed_message, exit_code, failure_message,
    name_version, stops_at, success_message,
};
use hasp::text::{decimal_text, find_char, same_text, starts_with, str_less, strip_prefix};
use hasp::version::SemVersion;
use hasp::version_req::{exact_version_req, split_version, DirectoryVersionReq};
use std::hash::Hasher;

fn semantic(text: &str) -> DirectoryVersion {
    DirectoryVersion::new_semantic(SemVersion::parse(text).expect("a version"))
}

#[test]
fn requirement_matches() {
    let req = DirectoryVersionReq::from_semver_text("1.2").expect("a requirement");
    assert_eq!(req.as_str(), "^1.2");
    assert_eq!(req.to_text(), "^1.2");
    assert_eq!(req.as_semver().as_deref(), Some("^1.2"));
    assert!(req.matches(&semantic("1.3.0")));
    assert!(req.matches(&semantic("1.2.0+build")));
    assert!(!req.matches(&semantic("2.0.0")));
    assert!(!req.matches(&semantic("1.3.0-beta")));
    assert!(!req.matches(&DirectoryVersion::new_literal("1.3.0")));
    assert!(req.matches(&DirectoryVersion::new_literal("^1.2")));

    let literal = DirectoryVersionReq::new("nightly");
    assert!(literal.as_semver().is_none());
    assert!(literal.matches(&DirectoryVersion::new_literal("nightly")));
    assert!(!literal.matches(&DirectoryVersion::new_literal("nightly2")));
    assert!(!literal.matches(&semantic("1.0.0")));

    assert_eq!(DirectoryVersionReq::any().as_str(), "*");
    assert!(DirectoryVersionReq::any().matches(&semantic("0.0.1")));
    assert_eq!(
        DirectoryVersionReq::from_semver_text("not a req").unwrap_err(),
        "unexpected character 'n' while parsing major version number"
    );
    let several = DirectoryVersionReq::from_semver_text(">=1.0,<2").expect("a requirement");
    assert_eq!(several.as_str(), ">=1.0, <2");
}

#[test]
fn exact_requirements() {
    let exact = |text: &str| exact_version_req(&DirectoryVersionReq::new(text));
    assert_eq!(exact("=13.0.0"), Some(SemVersion::new(13, 0, 0)));
    assert_eq!(exact(" = 1.2.3-beta.1"), SemVersion::from_parts(1, 2, 3, "beta.1", ""));
    assert_eq!(exact("=1.2.3+build"), Some(SemVersion::new(1, 2, 3)));
    assert_eq!(exact("=1.2"), None);
    assert_eq!(exact("1.2.3"), None);
    assert_eq!(exact(">=1.2.3"), None);
    assert_eq!(exact("=1.2.3, <2.0.0"), None);
    assert_eq!(exact("*"), None);
    assert_eq!(exact("nonsense"), None);
}

#[test]
fn specifiers() {
    let (name, req) = split_version("ripgrep@=13.0.0").expect("a specifier");
    assert_eq!(name, "ripgrep");
    assert_eq!(req.as_str(), "=13.0.0");
    let (name, req) = split_version("ripgrep").expect("a specifier");
    assert_eq!(name, "ripgrep");
    assert_eq!(req.as_str(), "*");
    let (name, req) = split_version("@1").expect("a specifier");
    assert_eq!(name, "");
    assert_eq!(req.as_str(), "^1");
    let err = split_version("a@b@c").unwrap_err();
    assert_eq!(err.name(), "a");
    assert_eq!(err.to_text(), "failed to parse version req for crate a");
    assert_eq!(
        err.source_text(),
        "unexpected character 'b' while parsing major version number"
    );
    let err = split_version("a@").unwrap_err();
    assert_eq!(err.name(), "a");
    assert_eq!(err.source_text(), "unexpected end of input while parsing major version number");
    let err = split_version("tool@1.2.3, *").unwrap_err();
    assert_eq!(err.name(), "tool");
    assert!(!err.source_text().is_empty());
}

#[test]
fn resolving() {
    let list = |versions: &[(&str, bool)]| -> Vec<Candidate> {
        versions
            .iter()
            .map(|(version, yanked)| Candidate { version: (*version).to_owned(), yanked: *yanked })
            .collect()
    };
    let req = DirectoryVersionReq::from_semver_text("^1").expect("a requirement");
    let candidates = list(&[
        ("1.0.0", false),
        ("1.2.0", true),
        ("1.1.0", false),
        ("bogus", false),
        ("2.0.0", false),
        ("1.1.0", false),
        ("1.0.5", false),
    ]);
    let resolved = resolve("demo", &req, &candidates).expect("resolved");
    assert_eq!(resolved.index, 5);
    assert_eq!(resolved.version, SemVersion::new(1, 1, 0));

    let newest = DirectoryVersionReq::any();
    let resolved = resolve("demo", &newest, &candidates).expect("resolved");
    assert_eq!(resolved.index, 4);

    let none = DirectoryVersionReq::from_semver_text("^3").expect("a requirement");
    let err = resolve("demo", &none, &candidates).unwrap_err();
    assert_eq!(err, ResolveError::NoMatch { name: "demo".to_owned(), req: "^3".to_owned() });
    assert_eq!(err.to_text(), "no matching version found for crate demo, req ^3");
    assert!(resolve("demo", &req, &[].to_vec()).is_err());

    let err = resolve("demo", &DirectoryVersionReq::new("nightly"), &candidates).unwrap_err();
    assert_eq!(err, ResolveError::NotSemver { req: "nightly".to_owned() });
    assert_eq!(err.to_text(), "failed to parse requirement nightly as semver");

    // Pre-releases come before the release.
    let pre = list(&[("1.0.0-rc.2", false), ("1.0.0-rc.10", false), ("1.0.0-rc.9", false)]);
    let req = DirectoryVersionReq::from_semver_text(">=1.0.0-rc.1").expect("a requirement");
    assert_eq!(resolve("demo", &req, &pre).expect("resolved").index, 1);
}

#[test]
fn files_of_a_build() {
    let executable = |name: &str, path: &str| Executable {
        file_name: name.to_owned(),
        path: path.to_owned(),
    };
    assert_eq!(installed_files(&vec![], "/x/Cargo.lock"), Err(NoBinaries));
    assert_eq!(NoBinaries.to_text(), "crate does not have any binaries");

    let package = installed_files(
        &vec![executable("rg", "/t/rg"), executable("a", "/t/a"), executable("rg", "/t2/rg")],
        "/x/Cargo.lock",
    )
    .expect("a package");
    assert_eq!(package.metadata, "null");
    let seen: Vec<(&str, &str, bool)> = package
        .installed_files
        .iter()
        .map(|f| (f.name.as_str(), f.temp_path.as_str(), f.is_binary))
        .collect();
    assert_eq!(
        seen,
        vec![("Cargo.lock", "/x/Cargo.lock", false), ("a", "/t/a", true), ("rg", "/t2/rg", true)]
    );
    assert!(package.installed_files.iter().all(|f| f.metadata == "null"));
    assert_eq!(package.binaries(), vec!["a", "rg"]);

    // An executable of the lock file's name gives way to the lock file.
    let package =
        installed_files(&vec![executable("Cargo.lock", "/t/odd")], "/x/Cargo.lock").expect("one");
    assert_eq!(package.installed_files.len(), 1);
    assert!(!package.installed_files[0].is_binary);
}

#[test]
fn cargo_names_and_arguments() {
    let version = SemVersion::from_parts(13, 0, 0, "rc.1", "").expect("a version");
    assert_eq!(extracted_dir_name("ripgrep", &version), "ripgrep-13.0.0-rc.1");
    assert_eq!(crate_file_name("ripgrep", &version), "ripgrep-13.0.0-rc.1.crate");
    assert_eq!(
        build_args(&CargoDirectory { default_features: true }, Color::Auto),
        vec!["build", "--color=auto", "--release", "--message-format", "json-render-diagnostics"]
    );
    assert_eq!(
        build_args(&CargoDirectory { default_features: false }, Color::Never),
        vec![
            "build",
            "--color=never",
            "--no-default-features",
            "--release",
            "--message-format",
            "json-render-diagnostics"
        ]
    );
    assert_eq!(CargoDirectory { default_features: false }.to_json(), "{\"default-features\":false}");
    assert_eq!(CargoDirectory { default_features: false }.hash_extra(), vec![0]);
}

#[test]
fn directory_hash_derivation() {
    // The known digest of the empty input.
    let mut hasher = twox_hash::XxHash64::default();
    hasher.write(b"");
    assert_eq!(hasher.finish(), 0xef46_db37_51d8_e999);

    let version = semantic("13.0.0");
    let hash = new_directory_hash("cargo", "ripgrep", &version, &[1]);
    assert_eq!(hash.to_text(), "6e21655fb63400ba");
    assert_eq!(new_directory_hash("cargo", "ripgrep", &version, &[0]).to_text(), "947a8c51c5b2412e");
    assert_eq!(
        new_directory_hash("", "", &DirectoryVersion::new_literal(""), &[]).to_text(),
        "dceb4da19fc9b017"
    );

    // Each field goes in behind its length, so fields do not run together.
    let mut hasher = twox_hash::XxHash64::default();
    for field in ["cargo", "ripgrep", "sem:13.0.0"] {
        hasher.write(&(field.len() as u64).to_le_bytes());
        hasher.write(field.as_bytes());
    }
    hasher.write(&[1]);
    assert_eq!(hash.numeric(), hasher.finish());
    assert_ne!(
        new_directory_hash("ab", "c", &version, &[]),
        new_directory_hash("a", "bc", &version, &[])
    );
}

fn migrations(names: &[&str]) -> Vec<Migration> {
    names
        .iter()
        .map(|name| Migration { name: (*name).to_owned(), sql: format!("-- {}", name) })
        .collect()
}

#[test]
fn migration_sets() {
    assert!(MigrationSet::new(vec![]).is_none());
    assert!(MigrationSet::new(migrations(&["0002", "0001"])).is_none());
    assert!(MigrationSet::new(migrations(&["0001", "0001"])).is_none());
    let set = MigrationSet::new(migrations(&["0001_init", "0002_files", "0003_more"]))
        .expect("ascending");
    assert_eq!(set.len(), 3);
    assert_eq!(set.get(1).map(|m| m.name.as_str()), Some("0002_files"));
    assert!(set.get(3).is_none());
    assert_eq!(set.applied_count(None), Ok(0));
    assert_eq!(set.applied_count(Some("0001_init")), Ok(1));
    assert_eq!(set.applied_count(Some("0003_more")), Ok(3));
}

#[test]
fn migration_mismatch() {
    let set = MigrationSet::new(migrations(&["0001_init", "0002_files"])).expect("ascending");
    let err = MigrationRun::new(set, Some("9999_future")).unwrap_err();
    assert_eq!(err.applied, "9999_future");
    assert_eq!(err.latest_known, "0002_files");
    let text = err.to_text();
    assert!(text.contains("applied migration 9999_future is newer than latest known migration 0002_files"));
    assert_eq!(
        text,
        "latest applied migration 9999_future is newer than latest known migration 0002_files \
         (hint: upgrade hasp version)"
    );
}

#[test]
fn migration_runs() {
    let set = MigrationSet::new(migrations(&["0001", "0002", "0003"])).expect("ascending");
    let mut journal = Journal::new();
    let mut run = MigrationRun::new(set, Some("0001")).expect("a run");
    assert_eq!(run.state(), RunState::Ready);
    assert_eq!(run.current().map(|m| m.sql.as_str()), Some("-- 0002"));
    // Ending what has not begun does nothing.
    run.end(true, &mut journal);
    assert_eq!(journal.len(), 0);
    run.begin(&mut journal);
    run.begin(&mut journal);
    assert_eq!(run.state(), RunState::Running);
    run.end(true, &mut journal);
    assert_eq!(run.performed(), vec!["0002"]);
    run.begin(&mut journal);
    assert_eq!(run.current().map(|m| m.name.as_str()), Some("0003"));
    run.end(false, &mut journal);
    assert_eq!(run.state(), RunState::Failed);
    assert!(run.current().is_none());
    run.begin(&mut journal);
    assert_eq!(journal.len(), 4);
    assert_eq!(
        journal.event_at(0),
        Some(&JournalEvent::MigrationStarted { name: "0002".to_owned() })
    );
    assert_eq!(
        journal.event_at(1),
        Some(&JournalEvent::MigrationFinished { name: "0002".to_owned() })
    );
    assert_eq!(
        journal.event_at(3),
        Some(&JournalEvent::MigrationRollback { rolled_back: vec!["0002".to_owned()] })
    );
    assert_eq!(journal.count(EventKind::MigrationStarted), 2);

    let set = MigrationSet::new(migrations(&["0001", "0002"])).expect("ascending");
    let mut run = MigrationRun::new(set, None).expect("a run");
    for _ in 0..2 {
        run.begin(&mut journal);
        run.end(true, &mut journal);
    }
    assert_eq!(run.state(), RunState::Done);
    assert_eq!(run.performed(), vec!["0001", "0002"]);
    let set = MigrationSet::new(migrations(&["0001", "0002"])).expect("ascending");
    let run = MigrationRun::new(set, Some("0002")).expect("a run");
    assert_eq!(run.state(), RunState::Done);
    assert!(run.performed().is_empty());
}

#[test]
fn event_names() {
    let names: Vec<&str> = [
        EventKind::InstallStarted,
        EventKind::InstallSuccess,
        EventKind::InstallFailed,
        EventKind::MigrationStarted,
        EventKind::MigrationFinished,
        EventKind::MigrationRollback,
    ]
    .iter()
    .map(|k| k.name())
    .collect();
    assert_eq!(
        names,
        vec![
            "install_started",
            "install_success",
            "install_failed",
            "migration_started",
            "migration_finished",
            "migration_rollback"
        ]
    );
    assert_eq!(
        JournalEvent::MigrationStarted { name: "x".to_owned() }.kind(),
        EventKind::MigrationStarted
    );
}

#[test]
fn exit_codes() {
    let failure = || InstallStatus::Failure("no".to_owned());
    assert_eq!(exit_code(&vec![]), 0);
    assert_eq!(exit_code(&vec![InstallStatus::Success, InstallStatus::Success]), 0);
    assert_eq!(exit_code(&vec![InstallStatus::Success, InstallStatus::AlreadyInstalled]), 1);
    assert_eq!(exit_code(&vec![InstallStatus::AlreadyInstalled, failure()]), 2);
    assert_eq!(exit_code(&vec![failure(), InstallStatus::Success]), 2);
    let statuses = vec![InstallStatus::Success, failure(), failure()];
    assert_eq!(stops_at(&statuses, false), Some(1));
    assert_eq!(stops_at(&statuses, true), None);
    assert_eq!(stops_at(&vec![InstallStatus::AlreadyInstalled], false), None);
}

#[test]
fn messages_for_the_user() {
    let v = semantic("13.0.0");
    assert_eq!(name_version("ripgrep", &v), "ripgrep v13.0.0");
    assert_eq!(name_version("tool", &DirectoryVersion::new_literal("nightly")), "tool vnightly");
    let packages = vec![
        ("ripgrep".to_owned(), v.clone()),
        ("fd".to_owned(), semantic("8.2.1")),
        ("tool".to_owned(), DirectoryVersion::new_literal("x")),
    ];
    assert_eq!(already_installed_listing(&vec![]), "");
    assert_eq!(already_installed_listing(&packages[..1].to_vec()), "* ripgrep v13.0.0");
    assert_eq!(
        already_installed_listing(&packages),
        "* ripgrep v13.0.0\n* fd v8.2.1\n* tool vx"
    );
    assert_eq!(
        already_installed_message(&packages[..2].to_vec()),
        "Info the following packages are already installed:\n* ripgrep v13.0.0\n* fd v8.2.1"
    );
    assert_eq!(
        success_message("ripgrep", &v, &vec!["rg".to_owned(), "rg2".to_owned(), "x".to_owned()]),
        "Success ripgrep v13.0.0 installed with binaries rg, rg2, x"
    );
    assert_eq!(
        success_message("ripgrep", &v, &vec![]),
        "Success ripgrep v13.0.0 installed with binaries "
    );
    assert_eq!(
        failure_message("ripgrep", &v, "build failed"),
        "Failed to install ripgrep v13.0.0: build failed"
    );
}

#[test]
fn colors() {
    assert_eq!(Color::Auto.to_arg(), "--color=auto");
    assert_eq!(Color::Always.to_arg(), "--color=always");
    assert_eq!(Color::Never.to_arg(), "--color=never");
    assert_eq!(Color::from_str("auto"), Ok(Color::Auto));
    assert_eq!(Color::from_str("always"), Ok(Color::Always));
    assert_eq!(Color::from_str("never"), Ok(Color::Never));
    assert_eq!(
        Color::from_str("blue"),
        Err("blue is not a valid option, expected `auto`, `always` or `never`".to_owned())
    );
    assert_eq!(Color::Auto.init_colored(), None);
    assert_eq!(Color::Always.init_colored(), Some(true));
    assert_eq!(Color::Never.init_colored(), Some(false));
}

#[test]
fn logger_plans() {
    let opts = |quiet, verbose| OutputOpts { quiet, verbose, color: Color::Never };
    let plan = opts(false, 0).init_logger("");
    assert_eq!(plan.filter, Filter::AtLeast(Level::Info));
    assert_eq!(plan.format, OutputFormat::User);
    assert_eq!(plan.colored, Some(false));
    assert_eq!(opts(true, 0).init_logger("").filter, Filter::AtLeast(Level::Error));
    assert_eq!(opts(true, 3).init_logger("").filter, Filter::AtLeast(Level::Error));
    assert_eq!(opts(false, 1).init_logger("").filter, Filter::AtLeast(Level::Debug));
    assert_eq!(opts(false, 1).init_logger("").format, OutputFormat::User);
    assert_eq!(opts(false, 2).init_logger("").format, OutputFormat::Full);
    assert_eq!(opts(false, 3).init_logger("").format, OutputFormat::Pretty);
    assert_eq!(
        opts(true, 0).init_logger("hasp=trace").filter,
        Filter::Directives("hasp=trace".to_owned())
    );
}

#[test]
fn message_layout() {
    assert_eq!(OutputKind::from_target("hasp::output::working::building"), OutputKind::Working);
    assert_eq!(OutputKind::from_target("hasp::output::recording::x"), OutputKind::Recording);
    assert_eq!(
        OutputKind::from_target("hasp::output::informational::already_installed"),
        OutputKind::Informational
    );
    assert_eq!(OutputKind::from_target("hasp::output::install_success"), OutputKind::Standard);
    assert_eq!(OutputKind::from_target("hasp::output::working"), OutputKind::Standard);
    assert_eq!(layer_of("hasp::output::x"), Some(Layer::Output));
    assert_eq!(layer_of("hasp::alt_output::x"), Some(Layer::AltOutput));
    assert_eq!(layer_of("hasp::database"), None);

    assert_eq!(header_style(Level::Error, OutputKind::Working), HeaderStyle::Red);
    assert_eq!(header_style(Level::Warn, OutputKind::Standard), HeaderStyle::Yellow);
    assert_eq!(header_style(Level::Info, OutputKind::Recording), HeaderStyle::Yellow);
    assert_eq!(header_style(Level::Debug, OutputKind::Working), HeaderStyle::Blue);
    assert_eq!(header_style(Level::Info, OutputKind::Informational), HeaderStyle::Purple);
    assert_eq!(header_style(Level::Trace, OutputKind::Standard), HeaderStyle::Green);
    assert_eq!(level_prefix(Level::Error), Some("error:"));
    assert_eq!(level_prefix(Level::Warn), Some("warning:"));
    assert_eq!(level_prefix(Level::Info), Some("info:"));
    assert_eq!(level_prefix(Level::Debug), Some("debug:"));
    assert_eq!(level_prefix(Level::Trace), None);

    let parts = split_message("Info the following:\n* a\n* b");
    assert_eq!(parts.header, "Info");
    assert_eq!(parts.first_line, "the following:");
    assert_eq!(parts.later.as_deref(), Some("* a\n* b"));
    let parts = split_message("Downloading x to y");
    assert_eq!((parts.header.as_str(), parts.first_line.as_str()), ("Downloading", "x to y"));
    assert_eq!(parts.later, None);
    let parts = split_message("word");
    assert_eq!((parts.header.as_str(), parts.first_line.as_str()), ("", "word"));
    assert_eq!(split_once("a=b=c", '='), Some(("a".to_owned(), "b=c".to_owned())));
    assert_eq!(split_once("abc", '='), None);
}

#[test]
fn home_directory() {
    assert_eq!(
        discover(Some(("/opt/hasp".to_owned(), true)), Some("/home/u".to_owned())),
        Ok(HomeChoice::Explicit("/opt/hasp".to_owned()))
    );
    let err = discover(Some(("rel/hasp".to_owned(), false)), Some("/home/u".to_owned()))
        .unwrap_err();
    assert_eq!(err, HomeError::NotAbsolute("rel/hasp".to_owned()));
    assert_eq!(err.to_text(), "HASP_HOME rel/hasp must be absolute");
    assert_eq!(
        discover(None, Some("/home/u".to_owned())),
        Ok(HomeChoice::UnderUserHome("/home/u".to_owned()))
    );
    let err = discover(None, None).unwrap_err();
    assert_eq!(
        err.to_text(),
        "user home directory could not be determined (use HASP_HOME to set an explicit \
         directory for hasp)"
    );
    assert_eq!((CACHE_DIR, FETCH_DIR, NEW_DIR, OLD_DIR), ("cache", "fetch", "install-new", "install-old"));
}

#[test]
fn store_settings() {
    assert_eq!(APPLICATION_ID, 0x68617370);
    assert_eq!(&APPLICATION_ID.to_be_bytes(), b"hasp");
    assert!(needs_application_id(0));
    assert!(!needs_application_id(APPLICATION_ID));
    assert_eq!(
        connection_settings(ConnectionKind::Catalog),
        vec![Setting::ForeignKeys(true), Setting::BusyTimeout(5000)]
    );
    assert_eq!(connection_settings(ConnectionKind::Journal), vec![Setting::BusyTimeout(5000)]);

    let mut creator = ConnectionCreator::new();
    let steps = creator.initialize();
    assert_eq!(steps.len(), 11);
    assert_eq!(steps[0], InitStep::EnableWal(Database::Main));
    assert_eq!(steps[3], InitStep::Begin);
    assert_eq!(steps[6], InitStep::SetApplicationId(Database::Events));
    assert_eq!(steps[9], InitStep::RunMigrations);
    assert_eq!(steps[10], InitStep::Commit);
    // Write-ahead logging is turned on before the transaction opens.
    let begin = steps.iter().position(|s| *s == InitStep::Begin).expect("a begin");
    assert!(steps[..begin].iter().all(|s| matches!(s, InitStep::EnableWal(_))));
    creator.record(false);
    assert_eq!(creator.initialize().len(), 11);
    creator.record(true);
    assert!(creator.initialize().is_empty());
    creator.record(false);
    assert!(creator.initialize().is_empty());
}

#[test]
fn moving_the_old_tree_away() {
    assert_eq!(move_away_event(MoveOutcome::Moved, "a", "b"), Event::Done);
    assert_eq!(move_away_event(MoveOutcome::SourceMissing, "a", "b"), Event::Done);
    assert_eq!(
        move_away_event(MoveOutcome::Failed, "/p", "/old"),
        Event::Failed("failed to rename existing directory /p to /old".to_owned())
    );
}

#[test]
fn text_helpers() {
    assert_eq!(decimal_text(0), "0");
    assert_eq!(decimal_text(7), "7");
    assert_eq!(decimal_text(10), "10");
    assert_eq!(decimal_text(9_007_199_254_740_993), "9007199254740993");
    assert_eq!(decimal_text(u64::MAX), "18446744073709551615");
    assert!(same_text("é", "é"));
    assert!(!same_text("a", "b"));
    assert_eq!(strip_prefix("sem:1", "sem:"), Some("1".to_owned()));
    assert_eq!(strip_prefix("sem:", "sem:"), Some("".to_owned()));
    assert_eq!(strip_prefix("se", "sem:"), None);
    assert_eq!(strip_prefix("lit:1", "sem:"), None);
    assert!(starts_with("ééé", "éé"));
    assert!(!starts_with("é", "éé"));
    assert_eq!(find_char("añb@c@", '@'), Some(3));
    assert_eq!(find_char("abc", '@'), None);
    assert!(str_less("", "a"));
    assert!(!str_less("a", ""));
    assert!(!str_less("a", "a"));
    assert!(str_less("a", "ab"));
    assert!(str_less("Z", "a"));
    assert!(str_less("0009", "0010"));
    assert!(str_less("z", "é"));
    for (a, b) in [("abc", "abd"), ("b", "abc"), ("10", "9"), ("é", "z")] {
        assert_eq!(str_less(a, b), a < b);
    }
}
