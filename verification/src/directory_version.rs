use crate::text::{same_text, strip_prefix};
use crate::version::{
    lemma_parts_of_text, parts_of_text, semver_error_text, SemVersion, VersionParts,
};
use vstd::prelude::*;

verus! {

/// What a directory version holds.
pub enum VersionView {
    Semantic(VersionParts),
    Literal(Seq<char>),
}

impl VersionView {
    /// Whether the version is well formed: a semantic one is, if its parts
    /// are; a literal one always is.
    pub open spec fn wf(self) -> bool {
        match self {
            VersionView::Semantic(parts) => parts.wf(),
            VersionView::Literal(_) => true,
        }
    }

    /// The version as text, which is also the form that the catalog stores:
    /// `sem:` and the semantic version, or `lit:` and the literal one.
    pub open spec fn text(self) -> Seq<char> {
        match self {
            VersionView::Semantic(parts) => "sem:"@ + parts.text(),
            VersionView::Literal(literal) => "lit:"@ + literal,
        }
    }
}

/// Whether a text begins with one of the two prefixes of a directory version.
pub open spec fn has_version_prefix(s: Seq<char>) -> bool {
    "sem:"@.is_prefix_of(s) || "lit:"@.is_prefix_of(s)
}

/// The directory version that a text stands for: behind `sem:`, the
/// well-formed semantic version written so; behind `lit:`, whatever follows.
pub open spec fn version_of_text(s: Seq<char>) -> Option<VersionView> {
    if "sem:"@.is_prefix_of(s) {
        match parts_of_text(s.skip("sem:"@.len() as int)) {
            Some(parts) => Some(VersionView::Semantic(parts)),
            None => None,
        }
    } else if "lit:"@.is_prefix_of(s) {
        Some(VersionView::Literal(s.skip("lit:"@.len() as int)))
    } else {
        None
    }
}

/// Writing a directory version as text and reading the text back gives the
/// same version. The catalog stores that text, so the same holds of storing
/// a version and loading it.
pub proof fn lemma_version_text_round_trip(version: VersionView)
    requires
        version.wf(),
    ensures
        version_of_text(version.text()) == Some(version),
{
    reveal_strlit("sem:");
    reveal_strlit("lit:");
    let text = version.text();
    match version {
        VersionView::Semantic(parts) => {
            assert(text.subrange(0, "sem:"@.len() as int) =~= "sem:"@);
            assert(text.skip("sem:"@.len() as int) =~= parts.text());
            lemma_parts_of_text(parts);
        },
        VersionView::Literal(literal) => {
            assert(text[0] == 'l');
            assert(!"sem:"@.is_prefix_of(text)) by {
                if "sem:"@.is_prefix_of(text) {
                    assert(text.subrange(0, 4)[0] == "sem:"@[0]);
                }
            }
            assert(text.subrange(0, "lit:"@.len() as int) =~= "lit:"@);
            assert(text.skip("lit:"@.len() as int) =~= literal);
        },
    }
}

/// A directory version: semantic, to which ranges apply, or literal, which is
/// compared exactly.
#[derive(Clone, Debug, PartialEq, Eq, Hash)]
pub enum DirectoryVersion {
    /// A semantic version.
    Semantic(SemVersion),
    /// A literal version: any text.
    Literal(String),
}

impl View for DirectoryVersion {
    type V = VersionView;

    open spec fn view(&self) -> VersionView {
        match self {
            DirectoryVersion::Semantic(version) => VersionView::Semantic(version@),
            DirectoryVersion::Literal(literal) => VersionView::Literal(literal@),
        }
    }
}

impl DirectoryVersion {
    /// The prefix of a semantic version in text.
    pub const SEM_PREFIX: &'static str = "sem:";

    /// The prefix of a literal version in text.
    pub const LIT_PREFIX: &'static str = "lit:";

    /// Creates a semantic version.
    pub fn new_semantic(version: SemVersion) -> (made: Self)
        ensures
            made@ == VersionView::Semantic(version@),
    {
        DirectoryVersion::Semantic(version)
    }

    /// Creates a literal version.
    pub fn new_literal(version: &str) -> (made: Self)
        ensures
            made@ == VersionView::Literal(version@),
    {
        DirectoryVersion::Literal(version.to_owned())
    }

    /// Returns the semantic version, if this is one.
    pub fn as_semantic(&self) -> (version: Option<&SemVersion>)
        ensures
            match self@ {
                VersionView::Semantic(parts) => version matches Some(v) && v@ == parts,
                VersionView::Literal(_) => version is None,
            },
    {
        match self {
            DirectoryVersion::Semantic(v) => Some(v),
            _ => None,
        }
    }

    /// Returns the literal version, if this is one.
    pub fn as_literal(&self) -> (version: Option<&str>)
        ensures
            match self@ {
                VersionView::Literal(literal) => version matches Some(v) && v@ == literal,
                VersionView::Semantic(_) => version is None,
            },
    {
        match self {
            DirectoryVersion::Literal(v) => Some(v.as_str()),
            _ => None,
        }
    }

    /// A copy of this version.
    pub fn duplicate(&self) -> (copy: Self)
        ensures
            copy == *self,
    {
        match self {
            DirectoryVersion::Semantic(v) => DirectoryVersion::Semantic(v.duplicate()),
            DirectoryVersion::Literal(v) => DirectoryVersion::Literal(v.clone()),
        }
    }

    /// Whether two versions are the same.
    pub fn same(&self, other: &Self) -> (same: bool)
        ensures
            same == (self@ == other@),
    {
        match self {
            DirectoryVersion::Semantic(a) => match other {
                DirectoryVersion::Semantic(b) => a.same(b),
                DirectoryVersion::Literal(_) => false,
            },
            DirectoryVersion::Literal(a) => match other {
                DirectoryVersion::Semantic(_) => false,
                DirectoryVersion::Literal(b) => same_text(a.as_str(), b.as_str()),
            },
        }
    }

    /// Writes the version as text, the form that the catalog stores too.
    pub fn to_text(&self) -> (text: String)
        ensures
            text@ == self@.text(),
            self@.wf(),
    {
        match self {
            DirectoryVersion::Semantic(version) => {
                let mut text = Self::SEM_PREFIX.to_owned();
                text.append(version.to_text().as_str());
                text
            },
            DirectoryVersion::Literal(literal) => {
                let mut text = Self::LIT_PREFIX.to_owned();
                text.append(literal.as_str());
                text
            },
        }
    }

    /// Reads a version from text, or from what the catalog stores. A text
    /// with neither prefix is refused, and so is one that has `sem:` before
    /// anything but a well-formed semantic version.
    pub fn parse(s: &str) -> (parsed: Result<Self, ParseDirectoryVersionError>)
        ensures
            match version_of_text(s@) {
                Some(version) => parsed matches Ok(v) && v@ == version,
                None => parsed matches Err(e) && e.spec_input() == s@ && (e.is_semver_error()
                    <==> has_version_prefix(s@)),
            },
    {
        match strip_prefix(s, Self::SEM_PREFIX) {
            Some(rest) => match SemVersion::parse(rest.as_str()) {
                Ok(version) => Ok(DirectoryVersion::Semantic(version)),
                Err(err) => Err(
                    ParseDirectoryVersionError { input: s.to_owned(), semver: Some(err) },
                ),
            },
            None => match strip_prefix(s, Self::LIT_PREFIX) {
                Some(rest) => Ok(DirectoryVersion::Literal(rest)),
                None => Err(ParseDirectoryVersionError { input: s.to_owned(), semver: None }),
            },
        }
    }
}

/// An error met while reading a directory version.
#[derive(Debug)]
pub struct ParseDirectoryVersionError {
    input: String,
    semver: Option<semver::Error>,
}

impl ParseDirectoryVersionError {
    /// The text that was refused.
    pub closed spec fn spec_input(&self) -> Seq<char> {
        self.input@
    }

    /// Whether the text had the prefix `sem:` and was refused as a semantic
    /// version; otherwise it had neither prefix.
    pub closed spec fn is_semver_error(&self) -> bool {
        self.semver is Some
    }

    /// The message shown for this error.
    pub open spec fn spec_text(&self) -> Seq<char> {
        if self.is_semver_error() {
            "could not parse directory version '"@ + self.spec_input() + "'"@
        } else {
            "could not parse directory version '"@ + self.spec_input() + "'"@
                + ": input begins with neither 'sem:' nor 'lit:'"@
        }
    }

    /// The text that was refused.
    pub fn input(&self) -> (input: &str)
        ensures
            input@ == self.spec_input(),
    {
        self.input.as_str()
    }

    /// The message shown for this error.
    pub fn to_text(&self) -> (text: String)
        ensures
            text@ == self.spec_text(),
    {
        let mut text = "could not parse directory version '".to_owned();
        text.append(self.input.as_str());
        text.append("'");
        if self.semver.is_none() {
            text.append(": input begins with neither 'sem:' nor 'lit:'");
        }
        text
    }

    /// The message of the underlying error, where the text was refused as a
    /// semantic version.
    pub fn source_text(&self) -> (message: Option<String>)
        ensures
            message is Some <==> self.is_semver_error(),
    {
        match &self.semver {
            Some(err) => Some(semver_error_text(err)),
            None => None,
        }
    }
}

} // verus!
