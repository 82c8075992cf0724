use crate::directory_version::{DirectoryVersion, VersionView};
use crate::install::InstallStatus;
use vstd::prelude::*;

verus! {

/// Whether one of the installs failed.
pub open spec fn any_failure(statuses: Seq<InstallStatus>) -> bool {
    exists|i: int| 0 <= i < statuses.len() && (#[trigger] statuses[i]) is Failure
}

/// Whether one of the packages was installed already.
pub open spec fn any_installed_already(statuses: Seq<InstallStatus>) -> bool {
    exists|i: int| 0 <= i < statuses.len() && (#[trigger] statuses[i]) is AlreadyInstalled
}

/// The exit code for a series of installs: 2 where one failed; else 1 where
/// a package was installed already; else 0.
pub open spec fn exit_code_of(statuses: Seq<InstallStatus>) -> i32 {
    if any_failure(statuses) {
        2
    } else if any_installed_already(statuses) {
        1
    } else {
        0
    }
}

/// Computes the exit code for a series of installs.
pub fn exit_code(statuses: &Vec<InstallStatus>) -> (code: i32)
    ensures
        code == exit_code_of(statuses@),
{
    let mut failed = false;
    let mut already = false;
    let mut i: usize = 0;
    while i < statuses.len()
        invariant
            i <= statuses.len(),
            failed == any_failure(statuses@.take(i as int)),
            already == any_installed_already(statuses@.take(i as int)),
        decreases statuses.len() - i,
    {
        let ghost before = statuses@.take(i as int);
        let ghost after = statuses@.take(i + 1);
        proof {
            assert(after[i as int] == statuses@[i as int]);
            assert forall|j: int| 0 <= j < i implies before[j] == after[j] by {}
            if any_failure(before) {
                let j = choose|j: int| 0 <= j < before.len() && (#[trigger] before[j]) is Failure;
                assert(after[j] is Failure);
            }
            if any_installed_already(before) {
                let j = choose|j: int|
                    0 <= j < before.len() && (#[trigger] before[j]) is AlreadyInstalled;
                assert(after[j] is AlreadyInstalled);
            }
            if any_failure(after) && !(statuses@[i as int] is Failure) {
                let j = choose|j: int| 0 <= j < after.len() && (#[trigger] after[j]) is Failure;
                assert(before[j] is Failure);
            }
            if any_installed_already(after) && !(statuses@[i as int] is AlreadyInstalled) {
                let j = choose|j: int|
                    0 <= j < after.len() && (#[trigger] after[j]) is AlreadyInstalled;
                assert(before[j] is AlreadyInstalled);
            }
        }
        match &statuses[i] {
            InstallStatus::Failure(_) => {
                failed = true;
            },
            InstallStatus::AlreadyInstalled => {
                already = true;
            },
            InstallStatus::Success => {},
        }
        i += 1;
    }
    assert(statuses@.take(i as int) =~= statuses@);
    if failed {
        2
    } else if already {
        1
    } else {
        0
    }
}

/// Where reporting stops early: at the first failure, unless the user asked
/// to keep going.
pub fn stops_at(statuses: &Vec<InstallStatus>, keep_going: bool) -> (at: Option<usize>)
    ensures
        match at {
            Some(i) => !keep_going && i < statuses@.len() && statuses@[i as int] is Failure
                && !any_failure(statuses@.take(i as int)),
            None => keep_going || !any_failure(statuses@),
        },
{
    if keep_going {
        return None;
    }
    let mut i: usize = 0;
    while i < statuses.len()
        invariant
            !keep_going,
            i <= statuses.len(),
            forall|j: int| 0 <= j < i ==> !((#[trigger] statuses@[j]) is Failure),
        decreases statuses.len() - i,
    {
        if let InstallStatus::Failure(_) = &statuses[i] {
            proof {
                let before = statuses@.take(i as int);
                if any_failure(before) {
                    let j = choose|j: int|
                        0 <= j < before.len() && (#[trigger] before[j]) is Failure;
                    assert(statuses@[j] is Failure);
                }
            }
            return Some(i);
        }
        i += 1;
    }
    None
}

/// A version as it is shown to the user: without the prefix that tells
/// semantic from literal.
pub open spec fn short_version(version: VersionView) -> Seq<char> {
    match version {
        VersionView::Semantic(parts) => parts.text(),
        VersionView::Literal(literal) => literal,
    }
}

/// A package as it is shown to the user: name, ` v`, version.
pub open spec fn name_version_of(name: Seq<char>, version: VersionView) -> Seq<char> {
    name + " v"@ + short_version(version)
}

/// Writes a package as it is shown to the user.
pub fn name_version(name: &str, version: &DirectoryVersion) -> (text: String)
    ensures
        text@ == name_version_of(name@, version@),
{
    let mut text = name.to_owned();
    text.append(" v");
    match version {
        DirectoryVersion::Semantic(v) => {
            text.append(v.to_text().as_str());
        },
        DirectoryVersion::Literal(v) => {
            text.append(v.as_str());
        },
    }
    text
}

/// The list of the packages that were installed already: one line for each,
/// `* ` and the package, with a line break between two lines.
pub open spec fn listing_of(packages: Seq<(String, DirectoryVersion)>) -> Seq<char>
    decreases packages.len(),
{
    if packages.len() == 0 {
        Seq::empty()
    } else if packages.len() == 1 {
        "* "@ + name_version_of(packages[0].0@, packages[0].1@)
    } else {
        listing_of(packages.drop_last()) + "\n"@ + "* "@ + name_version_of(
            packages.last().0@,
            packages.last().1@,
        )
    }
}

/// Writes the list of the packages that were installed already.
pub fn already_installed_listing(packages: &Vec<(String, DirectoryVersion)>) -> (text: String)
    ensures
        text@ == listing_of(packages@),
{
    let mut text = String::new();
    let mut i: usize = 0;
    assert(packages@.take(0) =~= Seq::<(String, DirectoryVersion)>::empty());
    while i < packages.len()
        invariant
            i <= packages.len(),
            text@ == listing_of(packages@.take(i as int)),
        decreases packages.len() - i,
    {
        let ghost before = text@;
        assert(packages@.take(i + 1).drop_last() =~= packages@.take(i as int));
        if i > 0 {
            text.append("\n");
        }
        text.append("* ");
        text.append(name_version(packages[i].0.as_str(), &packages[i].1).as_str());
        i += 1;
        proof {
            let last = name_version_of(packages@[i - 1].0@, packages@[i - 1].1@);
            if i == 1 {
                assert(before =~= Seq::<char>::empty());
                assert(text@ =~= "* "@ + last);
            } else {
                assert(text@ =~= before + "\n"@ + "* "@ + last);
            }
        }
    }
    assert(packages@.take(i as int) =~= packages@);
    text
}

/// The message about the packages that were installed already.
pub fn already_installed_message(packages: &Vec<(String, DirectoryVersion)>) -> (text: String)
    ensures
        text@ == "Info the following packages are already installed:\n"@ + listing_of(packages@),
{
    let mut text = "Info the following packages are already installed:\n".to_owned();
    text.append(already_installed_listing(packages).as_str());
    text
}

/// The names of binaries in a row, with `, ` between two of them.
pub open spec fn joined_names(names: Seq<String>) -> Seq<char>
    decreases names.len(),
{
    if names.len() == 0 {
        Seq::empty()
    } else if names.len() == 1 {
        names[0]@
    } else {
        joined_names(names.drop_last()) + ", "@ + names.last()@
    }
}

/// The message about a package that was installed.
pub fn success_message(name: &str, version: &DirectoryVersion, binaries: &Vec<String>) -> (text:
    String)
    ensures
        text@ == "Success "@ + name_version_of(name@, version@) + " installed with binaries "@
            + joined_names(binaries@),
{
    let mut text = "Success ".to_owned();
    text.append(name_version(name, version).as_str());
    text.append(" installed with binaries ");
    let ghost head = text@;
    let mut i: usize = 0;
    assert(binaries@.take(0) =~= Seq::<String>::empty());
    assert(text@ =~= head + joined_names(binaries@.take(0)));
    while i < binaries.len()
        invariant
            i <= binaries.len(),
            text@ == head + joined_names(binaries@.take(i as int)),
        decreases binaries.len() - i,
    {
        let ghost before = joined_names(binaries@.take(i as int));
        assert(binaries@.take(i + 1).drop_last() =~= binaries@.take(i as int));
        if i > 0 {
            text.append(", ");
        }
        text.append(binaries[i].as_str());
        i += 1;
        proof {
            if i == 1 {
                assert(before =~= Seq::<char>::empty());
                assert(text@ =~= head + binaries@[0]@);
            } else {
                assert(text@ =~= head + (before + ", "@ + binaries@[i - 1]@));
            }
        }
    }
    assert(binaries@.take(i as int) =~= binaries@);
    text
}

/// The message about a package whose install failed.
pub fn failure_message(name: &str, version: &DirectoryVersion, report: &str) -> (text: String)
    ensures
        text@ == "Failed to install "@ + name_version_of(name@, version@) + ": "@ + report@,
{
    let mut text = "Failed to install ".to_owned();
    text.append(name_version(name, version).as_str());
    text.append(": ");
    text.append(report);
    text
}

} // verus!
