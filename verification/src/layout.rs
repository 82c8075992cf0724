use crate::directory_hash::{hash_text, DirectoryHash};
use vstd::prelude::*;

verus! {

/// The file of the catalog's main database, under the home directory.
pub const MAIN_DATABASE: &'static str = "db.sqlite";

/// The file of the catalog's packages database, under the home directory.
pub const PACKAGES_DATABASE: &'static str = "packages.sqlite";

/// The name under which the packages database is attached.
pub const PACKAGES_SCHEMA: &'static str = "packages";

/// The file of the event journal, under the home directory.
pub const EVENTS_DATABASE: &'static str = "events.sqlite";

/// The directory of the staging areas, under the home directory.
pub const CACHE_DIR: &'static str = "cache";

/// The directory of the install trees, under the home directory.
pub const INSTALLS_DIR: &'static str = "installs";

/// The directory under the user's home that is the default home directory.
pub const DEFAULT_HOME: &'static str = ".hasp";

/// What the name of a staging area begins with.
pub const STAGING_PREFIX: &'static str = "install-";

/// The child of a staging area that receives the fetched source.
pub const FETCH_DIR: &'static str = "fetch";

/// The child of a staging area that receives the built artifacts.
pub const NEW_DIR: &'static str = "install-new";

/// The child of a staging area that receives the tree which was installed
/// before.
pub const OLD_DIR: &'static str = "install-old";

/// The install path of a directory, as the names that lead to it from the
/// home directory: `installs`, namespace, name, and the hash in text.
pub open spec fn install_path_of(namespace: Seq<char>, name: Seq<char>, hash: u64) -> Seq<
    Seq<char>,
> {
    seq![INSTALLS_DIR@, namespace, name, hash_text(hash)]
}

/// The names that lead from the home directory to the install path of a
/// directory.
pub fn make_install_path(namespace: &str, name: &str, hash: DirectoryHash) -> (path: Vec<String>)
    ensures
        path@.len() == 4,
        path@.map_values(|s: String| s@) == install_path_of(namespace@, name@, hash.value()),
{
    let mut path: Vec<String> = Vec::new();
    path.push(INSTALLS_DIR.to_owned());
    path.push(namespace.to_owned());
    path.push(name.to_owned());
    path.push(hash.to_text());
    assert(path@.map_values(|s: String| s@) =~= install_path_of(
        namespace@,
        name@,
        hash.value(),
    ));
    path
}

/// The name of the lock file of a directory, which lies beside the install
/// path: the hash in text, then `.lock`.
pub fn lock_file_name(hash: DirectoryHash) -> (name: String)
    ensures
        name@ == hash_text(hash.value()) + ".lock"@,
{
    let mut name = hash.to_text();
    name.append(".lock");
    name
}

/// Where the home directory is.
#[derive(Clone, Debug, PartialEq, Eq)]
pub enum HomeChoice {
    /// At this path, which the environment names.
    Explicit(String),
    /// At `.hasp` under this path, the user's home.
    UnderUserHome(String),
}

/// Why no home directory could be chosen.
#[derive(Clone, Debug, PartialEq, Eq)]
pub enum HomeError {
    /// The environment names a path that is not absolute.
    NotAbsolute(String),
    /// The environment names none, and the user's home is not known.
    NoUserHome,
}

impl HomeError {
    /// The message shown for this error.
    pub fn to_text(&self) -> (text: String)
        ensures
            text@ == match self {
                HomeError::NotAbsolute(path) => "HASP_HOME "@ + path@ + " must be absolute"@,
                HomeError::NoUserHome => "user home directory could not be determined (use HASP_HOME to set an explicit directory for hasp)"@,
            },
    {
        match self {
            HomeError::NotAbsolute(path) => {
                let mut text = "HASP_HOME ".to_owned();
                text.append(path.as_str());
                text.append(" must be absolute");
                text
            },
            HomeError::NoUserHome => "user home directory could not be determined (use HASP_HOME to set an explicit directory for hasp)".to_owned(),
        }
    }
}

/// Chooses the home directory. `hasp_home` is what the environment variable
/// `HASP_HOME` holds, with whether that path is absolute; `user_home` is
/// the user's home directory.
pub fn discover(hasp_home: Option<(String, bool)>, user_home: Option<String>) -> (home: Result<
    HomeChoice,
    HomeError,
>)
    ensures
        home == match hasp_home {
            Some((path, absolute)) => if absolute {
                Ok::<HomeChoice, HomeError>(HomeChoice::Explicit(path))
            } else {
                Err::<HomeChoice, HomeError>(HomeError::NotAbsolute(path))
            },
            None => match user_home {
                Some(dir) => Ok::<HomeChoice, HomeError>(HomeChoice::UnderUserHome(dir)),
                None => Err::<HomeChoice, HomeError>(HomeError::NoUserHome),
            },
        },
{
    match hasp_home {
        Some((path, absolute)) => {
            if absolute {
                Ok(HomeChoice::Explicit(path))
            } else {
                Err(HomeError::NotAbsolute(path))
            }
        },
        None => match user_home {
            Some(dir) => Ok(HomeChoice::UnderUserHome(dir)),
            None => Err(HomeError::NoUserHome),
        },
    }
}

} // verus!
