use crate::directory::CargoDirectory;
use crate::install::{TempInstalledFile, TempInstalledPackage};
use crate::output::Color;
use crate::text::{str_less, text_less};
use crate::version::{
    parts_of_text, req_matches, semver_less, semver_matches, semver_req_text, version_less,
    SemVersion,
};
use crate::version_req::DirectoryVersionReq;
use vstd::prelude::*;

verus! {

/// One version of a package as the registry's index lists it.
#[derive(Clone, Debug, PartialEq, Eq)]
pub struct Candidate {
    /// The version as the index writes it.
    pub version: String,
    /// Whether the version was withdrawn.
    pub yanked: bool,
}

/// Whether a listed version can be chosen for a requirement: it is not
/// withdrawn, it is a semantic version, and it meets the requirement.
pub open spec fn eligible(candidate: Candidate, req: Seq<char>) -> bool {
    &&& !candidate.yanked
    &&& parts_of_text(candidate.version@) matches Some(parts)
    &&& semver_matches(req, parts) == Some(true)
}

/// The place of the version that is chosen among the first `n` that are
/// listed: the eligible one that none of the others comes after; of two
/// that are level, the one listed later.
pub open spec fn best_of(candidates: Seq<Candidate>, req: Seq<char>, n: int) -> Option<int>
    decreases n,
{
    if n <= 0 {
        None
    } else {
        let earlier = best_of(candidates, req, n - 1);
        let this = candidates[n - 1];
        if eligible(this, req) && (earlier matches Some(at) ==> !semver_less(
            parts_of_text(this.version@).unwrap(),
            parts_of_text(candidates[at].version@).unwrap(),
        )) {
            Some(n - 1)
        } else {
            earlier
        }
    }
}

/// Why no version was chosen.
#[derive(Clone, Debug, PartialEq, Eq)]
pub enum ResolveError {
    /// The requirement is no `semver` requirement.
    NotSemver { req: String },
    /// No listed version can be chosen.
    NoMatch { name: String, req: String },
}

impl ResolveError {
    /// The message shown for this error.
    pub fn to_text(&self) -> (text: String)
        ensures
            text@ == match self {
                ResolveError::NotSemver { req } => "failed to parse requirement "@ + req@
                    + " as semver"@,
                ResolveError::NoMatch { name, req } => "no matching version found for crate "@
                    + name@ + ", req "@ + req@,
            },
    {
        match self {
            ResolveError::NotSemver { req } => {
                let mut text = "failed to parse requirement ".to_owned();
                text.append(req.as_str());
                text.append(" as semver");
                text
            },
            ResolveError::NoMatch { name, req } => {
                let mut text = "no matching version found for crate ".to_owned();
                text.append(name.as_str());
                text.append(", req ");
                text.append(req.as_str());
                text
            },
        }
    }
}

/// The version that a requirement resolves to.
#[derive(Debug)]
pub struct Resolved {
    /// The place of the chosen version in the list.
    pub index: usize,
    /// The chosen version.
    pub version: SemVersion,
}

/// Resolves the requirement on the package `name` to one of the versions
/// that the registry lists: the highest that is not withdrawn and meets the
/// requirement. Listed versions that are no semantic versions are passed
/// over.
pub fn resolve(name: &str, req: &DirectoryVersionReq, candidates: &Vec<Candidate>) -> (resolved:
    Result<Resolved, ResolveError>)
    ensures
        match semver_req_text(req@) {
            Err(_) => resolved matches Err(ResolveError::NotSemver { req: r }) && r@ == req@,
            Ok(written) => match best_of(candidates@, written, candidates@.len() as int) {
                Some(at) => resolved matches Ok(chosen) && chosen.index == at && Some(
                    chosen.version@,
                ) == parts_of_text(candidates@[at].version@),
                None => resolved matches Err(ResolveError::NoMatch { name: n, req: r }) && n@
                    == name@ && r@ == written,
            },
        },
{
    let written = match req.as_semver() {
        Some(written) => written,
        None => {
            return Err(ResolveError::NotSemver { req: req.to_text() });
        },
    };
    let mut best: Option<Resolved> = None;
    let mut i: usize = 0;
    while i < candidates.len()
        invariant
            i <= candidates.len(),
            match best_of(candidates@, written@, i as int) {
                Some(at) => best matches Some(chosen) && chosen.index == at && 0 <= at < i && Some(
                    chosen.version@,
                ) == parts_of_text(candidates@[at].version@),
                None => best is None,
            },
        decreases candidates.len() - i,
    {
        let candidate = &candidates[i];
        if !candidate.yanked {
            match SemVersion::parse(candidate.version.as_str()) {
                Ok(version) => {
                    proof {
                        use_type_invariant(&version);
                    }
                    let admitted = match req_matches(written.as_str(), &version) {
                        Some(admitted) => admitted,
                        None => false,
                    };
                    if admitted {
                        let replace = match &best {
                            Some(chosen) => {
                                proof {
                                    use_type_invariant(&chosen.version);
                                }
                                !version_less(&version, &chosen.version)
                            },
                            None => true,
                        };
                        if replace {
                            best = Some(Resolved { index: i, version });
                        }
                    }
                },
                Err(_) => {},
            }
        }
        i += 1;
    }
    match best {
        Some(chosen) => Ok(chosen),
        None => Err(ResolveError::NoMatch { name: name.to_owned(), req: written }),
    }
}

/// An executable that the build tool reported.
#[derive(Clone, Debug, PartialEq, Eq)]
pub struct Executable {
    /// The last part of the path: the file's name.
    pub file_name: String,
    /// Where the build left the file.
    pub path: String,
}

/// The name under which the lock file of a built package is installed.
pub const LOCK_FILE: &'static str = "Cargo.lock";

/// The metadata of a file or an installation about which nothing is to be
/// said: the JSON value `null`.
pub const NO_METADATA: &'static str = "null";

/// What a file of a build holds.
pub struct FileView {
    pub name: Seq<char>,
    pub temp_path: Seq<char>,
    pub metadata: Seq<char>,
    pub is_binary: bool,
}

/// What a file of a build holds.
pub open spec fn view_of(file: TempInstalledFile) -> FileView {
    FileView {
        name: file.name@,
        temp_path: file.temp_path@,
        metadata: file.metadata@,
        is_binary: file.is_binary,
    }
}

/// What the files of a build hold, in order.
pub open spec fn views_of(files: Seq<TempInstalledFile>) -> Seq<FileView> {
    files.map_values(|f: TempInstalledFile| view_of(f))
}

/// The files whose name comes before `name`.
pub open spec fn before(files: Seq<FileView>, name: Seq<char>) -> Seq<FileView> {
    files.filter(|f: FileView| text_less(f.name, name))
}

/// The files whose name comes after `name`.
pub open spec fn after(files: Seq<FileView>, name: Seq<char>) -> Seq<FileView> {
    files.filter(|f: FileView| text_less(name, f.name))
}

/// A series of files with `file` put in: the files whose name comes before
/// its name, then `file`, then the files whose name comes after. A file of
/// the same name gives way to it.
pub open spec fn put(files: Seq<FileView>, file: FileView) -> Seq<FileView> {
    before(files, file.name) + seq![file] + after(files, file.name)
}

/// The file that stands for an executable: a binary under the executable's
/// file name, without metadata.
pub open spec fn binary_of(executable: Executable) -> FileView {
    FileView {
        name: executable.file_name@,
        temp_path: executable.path@,
        metadata: NO_METADATA@,
        is_binary: true,
    }
}

/// The binaries of a build: the first `n` executables put in one after the
/// other, so that of two with one name the later stays.
pub open spec fn binaries_of(executables: Seq<Executable>, n: int) -> Seq<FileView>
    decreases n,
{
    if n <= 0 {
        Seq::empty()
    } else {
        put(binaries_of(executables, n - 1), binary_of(executables[n - 1]))
    }
}

/// The files of a build: its binaries, and the package's lock file, which
/// lies at `lock_path`, as a plain file without metadata.
pub open spec fn files_of_build(executables: Seq<Executable>, lock_path: Seq<char>) -> Seq<
    FileView,
> {
    put(
        binaries_of(executables, executables.len() as int),
        FileView {
            name: LOCK_FILE@,
            temp_path: lock_path,
            metadata: NO_METADATA@,
            is_binary: false,
        },
    )
}

/// The build left no executable.
#[derive(Copy, Clone, Debug, PartialEq, Eq, Structural)]
pub struct NoBinaries;

impl NoBinaries {
    /// The message shown for this error.
    pub fn to_text(&self) -> (text: String)
        ensures
            text@ == "crate does not have any binaries"@,
    {
        "crate does not have any binaries".to_owned()
    }
}

fn copy_file(file: &TempInstalledFile) -> (copy: TempInstalledFile)
    ensures
        copy == *file,
{
    TempInstalledFile {
        name: file.name.clone(),
        temp_path: file.temp_path.clone(),
        metadata: file.metadata.clone(),
        is_binary: file.is_binary,
    }
}

fn put_file(files: Vec<TempInstalledFile>, file: TempInstalledFile) -> (kept: Vec<TempInstalledFile>)
    ensures
        views_of(kept@) == put(views_of(files@), view_of(file)),
{
    let ghost all = views_of(files@);
    let ghost name = file.name@;
    let mut kept: Vec<TempInstalledFile> = Vec::new();
    let mut i: usize = 0;
    proof {
        reveal(Seq::filter);
        assert(all.take(0) =~= Seq::<FileView>::empty());
        assert(views_of(kept@) =~= before(all.take(0), name));
    }
    while i < files.len()
        invariant
            i <= files.len(),
            all == views_of(files@),
            name == file.name@,
            views_of(kept@) == before(all.take(i as int), name),
        decreases files.len() - i,
    {
        let ghost old_kept = kept@;
        proof {
            reveal(Seq::filter);
            assert(all.take(i + 1).drop_last() =~= all.take(i as int));
            assert(all.take(i + 1).last() == view_of(files@[i as int]));
        }
        if str_less(files[i].name.as_str(), file.name.as_str()) {
            kept.push(copy_file(&files[i]));
            assert(views_of(kept@) =~= views_of(old_kept).push(view_of(files@[i as int])));
        }
        i += 1;
    }
    assert(all.take(i as int) =~= all);
    let ghost head = views_of(kept@);
    let ghost with_file = kept@;
    kept.push(copy_file(&file));
    proof {
        reveal(Seq::filter);
        assert(views_of(kept@) =~= head + seq![view_of(file)] + after(all.take(0), name));
    }
    let mut i: usize = 0;
    while i < files.len()
        invariant
            i <= files.len(),
            all == views_of(files@),
            name == file.name@,
            head == before(all, name),
            views_of(kept@) == head + seq![view_of(file)] + after(all.take(i as int), name),
        decreases files.len() - i,
    {
        let ghost old_kept = kept@;
        proof {
            reveal(Seq::filter);
            assert(all.take(i + 1).drop_last() =~= all.take(i as int));
            assert(all.take(i + 1).last() == view_of(files@[i as int]));
        }
        if str_less(file.name.as_str(), files[i].name.as_str()) {
            kept.push(copy_file(&files[i]));
            assert(views_of(kept@) =~= views_of(old_kept).push(view_of(files@[i as int])));
            assert(views_of(kept@) =~= head + seq![view_of(file)] + after(
                all.take(i + 1),
                name,
            ));
        }
        i += 1;
    }
    assert(all.take(i as int) =~= all);
    kept
}

/// Makes the package of a build from the executables that the build tool
/// reported, in the order of the reports. Each becomes a binary under its
/// file name; of two with one name the later stays. The package's lock
/// file, which lies at `lock_path`, is installed beside them as a plain
/// file. The files come in the order of their names. A build without any
/// executable is refused.
pub fn installed_files(executables: &Vec<Executable>, lock_path: &str) -> (package: Result<
    TempInstalledPackage,
    NoBinaries,
>)
    ensures
        executables@.len() == 0 ==> package is Err,
        executables@.len() > 0 ==> (package matches Ok(p) && p.metadata@ == NO_METADATA@
            && views_of(p.installed_files@) == files_of_build(executables@, lock_path@)),
{
    if executables.len() == 0 {
        return Err(NoBinaries);
    }
    let mut files: Vec<TempInstalledFile> = Vec::new();
    let mut i: usize = 0;
    assert(views_of(files@) =~= binaries_of(executables@, 0));
    while i < executables.len()
        invariant
            i <= executables.len(),
            views_of(files@) == binaries_of(executables@, i as int),
        decreases executables.len() - i,
    {
        let file = TempInstalledFile {
            name: executables[i].file_name.clone(),
            temp_path: executables[i].path.clone(),
            metadata: NO_METADATA.to_owned(),
            is_binary: true,
        };
        files = put_file(files, file);
        i += 1;
    }
    let lock = TempInstalledFile {
        name: LOCK_FILE.to_owned(),
        temp_path: lock_path.to_owned(),
        metadata: NO_METADATA.to_owned(),
        is_binary: false,
    };
    let files = put_file(files, lock);
    Ok(TempInstalledPackage { installed_files: files, metadata: NO_METADATA.to_owned() })
}

/// The arguments with which the build tool is run for a package: the
/// command `build`, the colour setting, `--no-default-features` where
/// default features were not requested, then a release build that reports
/// in JSON.
pub open spec fn build_args_of(metadata: CargoDirectory, color: Color) -> Seq<Seq<char>> {
    let head = seq![
        "build"@,
        match color {
            Color::Auto => "--color=auto"@,
            Color::Always => "--color=always"@,
            Color::Never => "--color=never"@,
        },
    ];
    let features = if metadata.default_features {
        Seq::<Seq<char>>::empty()
    } else {
        seq!["--no-default-features"@]
    };
    head + features + seq!["--release"@, "--message-format"@, "json-render-diagnostics"@]
}

/// Lists the arguments with which the build tool is run for a package.
pub fn build_args(metadata: &CargoDirectory, color: Color) -> (args: Vec<String>)
    ensures
        args@.map_values(|a: String| a@) == build_args_of(*metadata, color),
{
    let mut args: Vec<String> = Vec::new();
    args.push("build".to_owned());
    args.push(color.to_arg().to_owned());
    if !metadata.default_features {
        args.push("--no-default-features".to_owned());
    }
    args.push("--release".to_owned());
    args.push("--message-format".to_owned());
    args.push("json-render-diagnostics".to_owned());
    assert(args@.map_values(|a: String| a@) =~= build_args_of(*metadata, color));
    args
}

/// The name of the directory that the archive of a package unpacks to:
/// name, `-`, version.
pub fn extracted_dir_name(name: &str, version: &SemVersion) -> (dir: String)
    ensures
        dir@ == name@ + "-"@ + version@.text(),
{
    let mut dir = name.to_owned();
    dir.append("-");
    dir.append(version.to_text().as_str());
    dir
}

/// The name of the file that the archive of a package is downloaded to:
/// name, `-`, version, `.crate`.
pub fn crate_file_name(name: &str, version: &SemVersion) -> (file: String)
    ensures
        file@ == name@ + "-"@ + version@.text() + ".crate"@,
{
    let mut file = extracted_dir_name(name, version);
    file.append(".crate");
    file
}

} // verus!
