use crate::directory_version::{DirectoryVersion, VersionView};
use crate::text::{find_char, first_index, same_text, strip_prefix};
use crate::version::{
    parts_of_text, req_matches, req_text, semver_matches, semver_req_text,
    SemVersion, VersionParts,
};
use vstd::prelude::*;

verus! {

/// Whether a requirement written as `req` is met by `version`: a semantic
/// version, where `req` is a `semver` requirement that it satisfies; a
/// literal version, where `req` is that very text.
pub open spec fn req_admits(req: Seq<char>, version: VersionView) -> bool {
    match version {
        VersionView::Semantic(parts) => semver_matches(req, parts) == Some(true),
        VersionView::Literal(literal) => req == literal,
    }
}

/// The one version that a requirement asks for, where it asks for one
/// exactly: written by `semver`, it is `=` and a whole version.
pub open spec fn exact_version_of(req: Seq<char>) -> Option<VersionParts> {
    match semver_req_text(req) {
        Ok(text) => if "="@.is_prefix_of(text) {
            parts_of_text(text.skip("="@.len() as int))
        } else {
            None
        },
        Err(_) => None,
    }
}

/// A requirement on the version of a package.
#[derive(Clone, Debug)]
pub struct DirectoryVersionReq {
    req: String,
}

impl View for DirectoryVersionReq {
    type V = Seq<char>;

    closed spec fn view(&self) -> Seq<char> {
        self.req@
    }
}

impl DirectoryVersionReq {
    /// A requirement with the given text.
    pub fn new(req: &str) -> (made: Self)
        ensures
            made@ == req@,
    {
        Self { req: req.to_owned() }
    }

    /// The requirement that `semver` reads from `text`, kept as `semver`
    /// writes it; where `semver` refuses the text, the message with which it
    /// does.
    pub fn from_semver_text(text: &str) -> (made: Result<Self, String>)
        ensures
            match semver_req_text(text@) {
                Ok(written) => made matches Ok(req) && req@ == written,
                Err(message) => made matches Err(m) && m@ == message,
            },
    {
        match req_text(text) {
            Ok(req) => Ok(Self { req }),
            Err(message) => Err(message),
        }
    }

    /// The requirement that any version meets which is no pre-release.
    pub fn any() -> (made: Self)
        ensures
            made@ == "*"@,
    {
        Self { req: "*".to_owned() }
    }

    /// Returns the requirement's text.
    pub fn as_str(&self) -> (text: &str)
        ensures
            text@ == self@,
    {
        self.req.as_str()
    }

    /// Returns the requirement as `semver` writes it, if it is one of its
    /// requirements.
    pub fn as_semver(&self) -> (written: Option<String>)
        ensures
            match semver_req_text(self@) {
                Ok(text) => written matches Some(w) && w@ == text,
                Err(_) => written is None,
            },
    {
        match req_text(self.req.as_str()) {
            Ok(text) => Some(text),
            Err(_) => None,
        }
    }

    /// Returns true if the version meets this requirement.
    pub fn matches(&self, version: &DirectoryVersion) -> (matched: bool)
        ensures
            matched == req_admits(self@, version@),
    {
        match version {
            DirectoryVersion::Semantic(version) => {
                proof {
                    use_type_invariant(version);
                }
                match req_matches(self.req.as_str(), version) {
                    Some(matched) => matched,
                    None => false,
                }
            },
            DirectoryVersion::Literal(literal) => same_text(self.req.as_str(), literal.as_str()),
        }
    }

    /// Writes the requirement: its text.
    pub fn to_text(&self) -> (text: String)
        ensures
            text@ == self@,
    {
        self.req.clone()
    }
}

/// The version that a requirement asks for, where it asks for exactly one:
/// a single comparison `=` with major, minor and patch number. The version
/// has the comparison's pre-release part and no build metadata.
pub fn exact_version_req(req: &DirectoryVersionReq) -> (version: Option<SemVersion>)
    ensures
        match exact_version_of(req@) {
            Some(parts) => version matches Some(v) && v@ == parts,
            None => version is None,
        },
{
    match req.as_semver() {
        Some(text) => match strip_prefix(text.as_str(), "=") {
            Some(rest) => match SemVersion::parse(rest.as_str()) {
                Ok(version) => Some(version),
                Err(_) => None,
            },
            None => None,
        },
        None => None,
    }
}

/// The name in a package specifier: what stands before the first `@`, or all
/// of it.
pub open spec fn spec_name(spec: Seq<char>) -> Seq<char> {
    spec.take(first_index(spec, '@'))
}

/// The requirement in a package specifier: what `semver` makes of the text
/// behind the first `@`, which is the requirement as it writes it or the
/// message with which it refuses the text; without an `@`, the requirement
/// `*`.
pub open spec fn spec_requirement(spec: Seq<char>) -> Result<Seq<char>, Seq<char>> {
    let at = first_index(spec, '@');
    if at < spec.len() {
        semver_req_text(spec.skip(at + 1))
    } else {
        Ok("*"@)
    }
}

/// Why a package specifier was refused: `semver` did not accept the
/// requirement behind the `@`.
#[derive(Debug)]
pub struct SpecifierError {
    name: String,
    source: String,
}

impl SpecifierError {
    /// The name in the specifier.
    pub closed spec fn spec_name(&self) -> Seq<char> {
        self.name@
    }

    /// The message with which `semver` refused the requirement.
    pub closed spec fn spec_source(&self) -> Seq<char> {
        self.source@
    }

    /// The name in the specifier.
    pub fn name(&self) -> (name: &str)
        ensures
            name@ == self.spec_name(),
    {
        self.name.as_str()
    }

    /// The message shown for this error.
    pub fn to_text(&self) -> (text: String)
        ensures
            text@ == "failed to parse version req for crate "@ + self.spec_name(),
    {
        let mut text = "failed to parse version req for crate ".to_owned();
        text.append(self.name.as_str());
        text
    }

    /// The message with which `semver` refused the requirement.
    pub fn source_text(&self) -> (message: String)
        ensures
            message@ == self.spec_source(),
    {
        self.source.clone()
    }
}

/// Splits a specifier `name` or `name@requirement` into the name and the
/// requirement.
pub fn split_version(spec: &str) -> (split: Result<(String, DirectoryVersionReq), SpecifierError>)
    ensures
        match spec_requirement(spec@) {
            Ok(req) => split matches Ok(pair) && pair.0@ == spec_name(spec@) && pair.1@ == req,
            Err(message) => split matches Err(e) && e.spec_name() == spec_name(spec@)
                && e.spec_source() == message,
        },
{
    match find_char(spec, '@') {
        Some(at) => {
            let n = spec.unicode_len();
            let name = spec.substring_char(0, at).to_owned();
            assert(name@ =~= spec_name(spec@));
            let version = spec.substring_char(at + 1, n);
            assert(version@ =~= spec@.skip(at + 1));
            match DirectoryVersionReq::from_semver_text(version) {
                Ok(req) => Ok((name, req)),
                Err(source) => Err(SpecifierError { name, source }),
            }
        },
        None => {
            assert(spec@ =~= spec_name(spec@));
            Ok((spec.to_owned(), DirectoryVersionReq::any()))
        },
    }
}

} // verus!
