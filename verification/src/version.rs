use crate::text::{
    decimal, decimal_text, is_digit, lemma_decimal_digits, lemma_decimal_injective,
    lemma_split_unique,
};
use vstd::prelude::*;

verus! {

/// Whether `c` may stand in an identifier: `0`-`9`, `A`-`Z`, `a`-`z`, `-`.
pub open spec fn is_ident_char(c: char) -> bool {
    '0' <= c <= '9' || 'A' <= c <= 'Z' || 'a' <= c <= 'z' || c == '-'
}

/// Whether the characters from `from` up to `to` are one whole identifier of
/// `s`: bounded by dots or by the ends of `s`, with no dot inside.
pub open spec fn is_segment(s: Seq<char>, from: int, to: int) -> bool {
    &&& 0 <= from <= to <= s.len()
    &&& (from == 0 || s[from - 1] == '.')
    &&& (to == s.len() || s[to] == '.')
    &&& forall|i: int| from <= i < to ==> s[i] != '.'
}

/// Whether `s` is a series of identifiers separated by dots: each one not
/// empty and made of `0`-`9`, `A`-`Z`, `a`-`z`, `-`; with `strict`, one made
/// of digits only has no leading zero.
pub open spec fn valid_identifiers(s: Seq<char>, strict: bool) -> bool {
    &&& forall|i: int| 0 <= i < s.len() ==> is_ident_char(#[trigger] s[i]) || s[i] == '.'
    &&& forall|from: int, to: int| #[trigger] is_segment(s, from, to) ==> from < to
    &&& strict ==> forall|from: int, to: int|
        #[trigger] is_segment(s, from, to) && to - from > 1 && (forall|i: int|
            from <= i < to ==> is_digit(s[i])) ==> s[from] != '0'
}

/// Whether `s` can be the pre-release part of a version: empty, or
/// identifiers separated by dots, numeric ones without a leading zero.
pub open spec fn valid_pre(s: Seq<char>) -> bool {
    s.len() == 0 || valid_identifiers(s, true)
}

/// Whether `s` can be the build metadata of a version: empty, or identifiers
/// separated by dots.
pub open spec fn valid_build(s: Seq<char>) -> bool {
    s.len() == 0 || valid_identifiers(s, false)
}

/// What a semantic version holds.
pub struct VersionParts {
    pub major: u64,
    pub minor: u64,
    pub patch: u64,
    pub pre: Seq<char>,
    pub build: Seq<char>,
}

impl VersionParts {
    /// Whether the pre-release part and the build metadata are well formed.
    pub open spec fn wf(self) -> bool {
        valid_pre(self.pre) && valid_build(self.build)
    }

    /// The pre-release part behind `-`, if there is one.
    pub open spec fn pre_text(self) -> Seq<char> {
        if self.pre.len() > 0 {
            "-"@ + self.pre
        } else {
            Seq::empty()
        }
    }

    /// The build metadata behind `+`, if there is any.
    pub open spec fn build_text(self) -> Seq<char> {
        if self.build.len() > 0 {
            "+"@ + self.build
        } else {
            Seq::empty()
        }
    }

    /// The version as text: the three numbers in decimal, separated by dots,
    /// then the pre-release part and the build metadata.
    pub open spec fn text(self) -> Seq<char> {
        decimal(self.major as nat) + "."@ + decimal(self.minor as nat) + "."@ + decimal(
            self.patch as nat,
        ) + self.pre_text() + self.build_text()
    }
}

/// The well-formed version whose text is `s`, if there is one.
pub open spec fn parts_of_text(s: Seq<char>) -> Option<VersionParts> {
    if exists|p: VersionParts| p.wf() && #[trigger] p.text() == s {
        Some(choose|p: VersionParts| p.wf() && #[trigger] p.text() == s)
    } else {
        None
    }
}

proof fn lemma_not_plus(s: Seq<char>, strict: bool)
    requires
        s.len() == 0 || valid_identifiers(s, strict),
    ensures
        forall|i: int| 0 <= i < s.len() ==> (#[trigger] s[i]) != '+',
{
    assert forall|i: int| 0 <= i < s.len() implies (#[trigger] s[i]) != '+' by {
        assert(is_ident_char(s[i]) || s[i] == '.');
    }
}

proof fn lemma_after_number(n: u64, tail: Seq<char>, m: u64, other: Seq<char>)
    requires
        decimal(n as nat) + tail == decimal(m as nat) + other,
        tail.len() > 0 ==> !is_digit(tail[0]),
        other.len() > 0 ==> !is_digit(other[0]),
    ensures
        n == m,
        tail == other,
{
    lemma_decimal_digits(n as nat);
    lemma_decimal_digits(m as nat);
    lemma_split_unique(decimal(n as nat), tail, decimal(m as nat), other, |c: char| is_digit(c));
    lemma_decimal_injective(n as nat, m as nat);
}

impl VersionParts {
    /// What follows the patch number.
    pub open spec fn suffix(self) -> Seq<char> {
        self.pre_text() + self.build_text()
    }

    /// The patch number and what follows it.
    pub open spec fn from_patch(self) -> Seq<char> {
        decimal(self.patch as nat) + self.suffix()
    }

    /// The minor number and what follows it.
    pub open spec fn from_minor(self) -> Seq<char> {
        decimal(self.minor as nat) + ("."@ + self.from_patch())
    }
}

proof fn lemma_text_shape(p: VersionParts)
    ensures
        p.text() == decimal(p.major as nat) + ("."@ + p.from_minor()),
{
    assert(p.text() =~= decimal(p.major as nat) + ("."@ + p.from_minor()));
}

proof fn lemma_behind_dot(a: Seq<char>, b: Seq<char>)
    requires
        "."@ + a == "."@ + b,
    ensures
        a == b,
        ("."@ + a).len() > 0,
        !is_digit(("."@ + a)[0]),
{
    reveal_strlit(".");
    assert(a =~= ("."@ + a).skip(1));
    assert(b =~= ("."@ + b).skip(1));
}

proof fn lemma_dot_first(a: Seq<char>)
    ensures
        ("."@ + a).len() > 0,
        !is_digit(("."@ + a)[0]),
{
    reveal_strlit(".");
}

proof fn lemma_build_text(p: VersionParts, q: VersionParts)
    requires
        p.build_text() == q.build_text(),
    ensures
        p.build == q.build,
{
    reveal_strlit("+");
    assert("+"@.len() == 1);
    assert(p.build.len() > 0 ==> p.build_text().len() == 1 + p.build.len());
    assert(q.build.len() > 0 ==> q.build_text().len() == 1 + q.build.len());
    assert(p.build.len() == 0 ==> p.build_text().len() == 0);
    assert(q.build.len() == 0 ==> q.build_text().len() == 0);
    if p.build.len() > 0 {
        assert(q.build.len() > 0);
        assert(p.build =~= p.build_text().skip(1));
        assert(q.build =~= q.build_text().skip(1));
    } else {
        assert(q.build.len() == 0);
        assert(p.build =~= q.build);
    }
}

proof fn lemma_suffix_first(p: VersionParts)
    ensures
        p.suffix().len() > 0 ==> !is_digit(p.suffix()[0]),
        p.pre.len() > 0 ==> p.suffix().len() > 0 && p.suffix()[0] == '-' && p.suffix().skip(1)
            == p.pre + p.build_text(),
        p.pre.len() == 0 ==> p.suffix() == p.pre + p.build_text() && (p.suffix().len() > 0
            ==> p.suffix()[0] == '+'),
        p.build_text().len() > 0 ==> p.build_text()[0] == '+',
{
    reveal_strlit("-");
    reveal_strlit("+");
    if p.pre.len() > 0 {
        assert(p.suffix().skip(1) =~= p.pre + p.build_text());
    } else {
        assert(p.suffix() =~= p.pre + p.build_text());
    }
}

proof fn lemma_suffix_injective(p: VersionParts, q: VersionParts)
    requires
        p.wf(),
        q.wf(),
        p.suffix() == q.suffix(),
    ensures
        p.pre == q.pre,
        p.build == q.build,
{
    lemma_suffix_first(p);
    lemma_suffix_first(q);
    lemma_not_plus(p.pre, true);
    lemma_not_plus(q.pre, true);
    if p.pre.len() > 0 {
        assert(q.pre.len() > 0);
    } else {
        assert(q.pre.len() == 0);
    }
    lemma_split_unique(p.pre, p.build_text(), q.pre, q.build_text(), |c: char| c != '+');
    lemma_build_text(p, q);
}

/// Two well-formed versions with the same text are the same version.
pub proof fn lemma_text_injective(p: VersionParts, q: VersionParts)
    requires
        p.wf(),
        q.wf(),
        p.text() == q.text(),
    ensures
        p == q,
{
    lemma_text_shape(p);
    lemma_text_shape(q);
    lemma_dot_first(p.from_minor());
    lemma_dot_first(q.from_minor());
    lemma_after_number(p.major, "."@ + p.from_minor(), q.major, "."@ + q.from_minor());
    lemma_behind_dot(p.from_minor(), q.from_minor());
    lemma_dot_first(p.from_patch());
    lemma_dot_first(q.from_patch());
    lemma_after_number(p.minor, "."@ + p.from_patch(), q.minor, "."@ + q.from_patch());
    lemma_behind_dot(p.from_patch(), q.from_patch());
    lemma_suffix_first(p);
    lemma_suffix_first(q);
    lemma_after_number(p.patch, p.suffix(), q.patch, q.suffix());
    lemma_suffix_injective(p, q);
}

/// The text of a well-formed version is the text of that version alone.
pub proof fn lemma_parts_of_text(p: VersionParts)
    requires
        p.wf(),
    ensures
        parts_of_text(p.text()) == Some(p),
{
    let q = choose|q: VersionParts| q.wf() && #[trigger] q.text() == p.text();
    lemma_text_injective(p, q);
}

/// The error with which `semver` refuses a text.
#[verifier::external_type_specification]
#[verifier::external_body]
pub struct ExSemverError(semver::Error);

/// A semantic version: three numbers, a pre-release part and build metadata.
#[derive(Debug, PartialEq, Eq, Hash)]
pub struct SemVersion {
    major: u64,
    minor: u64,
    patch: u64,
    pre: String,
    build: String,
}

impl View for SemVersion {
    type V = VersionParts;

    closed spec fn view(&self) -> VersionParts {
        VersionParts {
            major: self.major,
            minor: self.minor,
            patch: self.patch,
            pre: self.pre@,
            build: self.build@,
        }
    }
}

/// Calls `semver::Version::parse` and takes the version's parts. A version
/// that it accepts is well formed and is written as the very text that was
/// read; it refuses a text only if no well-formed version is written so.
#[verifier::external_body]
fn parse_with_semver(text: &str) -> (parsed: Result<SemVersion, semver::Error>)
    ensures
        parsed matches Ok(v) ==> v@.wf() && v@.text() == text@,
        parsed is Err ==> forall|p: VersionParts| p.wf() ==> #[trigger] p.text() != text@,
{
    let v = semver::Version::parse(text)?;
    Ok(
        SemVersion {
            major: v.major,
            minor: v.minor,
            patch: v.patch,
            pre: v.pre.as_str().to_owned(),
            build: v.build.as_str().to_owned(),
        },
    )
}

/// Calls `semver::Prerelease::new`, which accepts the empty text and any
/// series of identifiers separated by dots, each one not empty and made of
/// `0`-`9`, `A`-`Z`, `a`-`z`, `-`, numeric ones without a leading zero.
#[verifier::external_body]
fn accepts_pre(text: &str) -> (accepted: bool)
    ensures
        accepted == valid_pre(text@),
{
    semver::Prerelease::new(text).is_ok()
}

/// Calls `semver::BuildMetadata::new`, which accepts the empty text and any
/// series of identifiers separated by dots, each one not empty and made of
/// `0`-`9`, `A`-`Z`, `a`-`z`, `-`.
#[verifier::external_body]
fn accepts_build(text: &str) -> (accepted: bool)
    ensures
        accepted == valid_build(text@),
{
    semver::BuildMetadata::new(text).is_ok()
}

/// Whether a version satisfies a requirement, as `semver` decides it; `None`
/// where the requirement's text is no `semver` requirement.
pub uninterp spec fn semver_matches(req: Seq<char>, version: VersionParts) -> Option<bool>;

/// What `semver` makes of a requirement's text: the requirement as it writes
/// it after reading it, or, where it refuses the text, the message with
/// which it does.
pub uninterp spec fn semver_req_text(req: Seq<char>) -> Result<Seq<char>, Seq<char>>;

/// Whether one version comes before another in the order of `semver`.
pub uninterp spec fn semver_less(a: VersionParts, b: VersionParts) -> bool;

/// Calls `semver::VersionReq::parse` on the requirement and, where that
/// accepts it, `VersionReq::matches` on the version, which is handed over as
/// a `semver::Version` of the same parts (made with `Prerelease::new` and
/// `BuildMetadata::new`). The outcome depends on the requirement's text and
/// the version's parts alone.
#[verifier::external_body]
pub(crate) fn req_matches(req: &str, version: &SemVersion) -> (matched: Option<bool>)
    requires
        version@.wf(),
    ensures
        matched == semver_matches(req@, version@),
{
    let req = semver::VersionReq::parse(req).ok()?;
    let pre = semver::Prerelease::new(version.pre.as_str()).ok()?;
    let build = semver::BuildMetadata::new(version.build.as_str()).ok()?;
    let (major, minor, patch) = (version.major, version.minor, version.patch);
    Some(req.matches(&semver::Version { major, minor, patch, pre, build }))
}

/// Calls `semver::VersionReq::parse` and writes what it accepted with the
/// requirement's `Display`, or the error with which it refused the text with
/// the error's `Display`. The outcome depends on the text alone.
#[verifier::external_body]
pub(crate) fn req_text(req: &str) -> (written: Result<String, String>)
    ensures
        match semver_req_text(req@) {
            Ok(text) => written matches Ok(w) && w@ == text,
            Err(message) => written matches Err(m) && m@ == message,
        },
{
    match semver::VersionReq::parse(req) {
        Ok(req) => Ok(format!("{}", req)),
        Err(error) => Err(format!("{}", error)),
    }
}

/// Compares two versions with the `<` of `semver::Version`, each handed over
/// as a `semver::Version` of the same parts (made with `Prerelease::new` and
/// `BuildMetadata::new`). The outcome depends on the parts of the two
/// versions alone.
#[verifier::external_body]
pub(crate) fn version_less(a: &SemVersion, b: &SemVersion) -> (less: bool)
    requires
        a@.wf(),
        b@.wf(),
    ensures
        less == semver_less(a@, b@),
{
    let outside = |v: &SemVersion| {
        let pre = semver::Prerelease::new(v.pre.as_str()).ok()?;
        let build = semver::BuildMetadata::new(v.build.as_str()).ok()?;
        Some(semver::Version { major: v.major, minor: v.minor, patch: v.patch, pre, build })
    };
    match (outside(a), outside(b)) {
        (Some(a), Some(b)) => a < b,
        _ => false,
    }
}

/// Writes a `semver` error as the message that `semver` gives it.
#[verifier::external_body]
pub(crate) fn semver_error_text(error: &semver::Error) -> (message: String)
{
    format!("{}", error)
}

impl Clone for SemVersion {
    fn clone(&self) -> (copy: Self)
        ensures
            copy == *self,
    {
        self.duplicate()
    }
}

impl SemVersion {
    /// Every version is well formed.
    #[verifier::type_invariant]
    pub open spec fn inv(&self) -> bool {
        self@.wf()
    }

    /// The version `major.minor.patch`, without pre-release part or build
    /// metadata.
    pub fn new(major: u64, minor: u64, patch: u64) -> (version: Self)
        ensures
            version@ == (VersionParts { major, minor, patch, pre: Seq::empty(), build: Seq::empty() }),
            version@.wf(),
    {
        Self { major, minor, patch, pre: String::new(), build: String::new() }
    }

    /// The version with these parts, if the pre-release part and the build
    /// metadata are well formed.
    pub fn from_parts(major: u64, minor: u64, patch: u64, pre: &str, build: &str) -> (version:
        Option<Self>)
        ensures
            version is Some <==> valid_pre(pre@) && valid_build(build@),
            version matches Some(v) ==> v@ == (VersionParts {
                major,
                minor,
                patch,
                pre: pre@,
                build: build@,
            }),
    {
        if accepts_pre(pre) && accepts_build(build) {
            Some(Self { major, minor, patch, pre: pre.to_owned(), build: build.to_owned() })
        } else {
            None
        }
    }

    /// The major number.
    pub fn major(&self) -> (major: u64)
        ensures
            major == self@.major,
    {
        self.major
    }

    /// The minor number.
    pub fn minor(&self) -> (minor: u64)
        ensures
            minor == self@.minor,
    {
        self.minor
    }

    /// The patch number.
    pub fn patch(&self) -> (patch: u64)
        ensures
            patch == self@.patch,
    {
        self.patch
    }

    /// The pre-release part; empty where the version has none.
    pub fn pre(&self) -> (pre: &str)
        ensures
            pre@ == self@.pre,
            valid_pre(pre@),
    {
        proof {
            use_type_invariant(self);
        }
        self.pre.as_str()
    }

    /// The build metadata; empty where the version has none.
    pub fn build(&self) -> (build: &str)
        ensures
            build@ == self@.build,
            valid_build(build@),
    {
        proof {
            use_type_invariant(self);
        }
        self.build.as_str()
    }

    /// A copy of this version.
    pub fn duplicate(&self) -> (copy: Self)
        ensures
            copy == *self,
    {
        proof {
            use_type_invariant(self);
        }
        Self {
            major: self.major,
            minor: self.minor,
            patch: self.patch,
            pre: self.pre.clone(),
            build: self.build.clone(),
        }
    }

    /// Whether two versions have the same parts.
    pub fn same(&self, other: &Self) -> (same: bool)
        ensures
            same == (self@ == other@),
    {
        let same = self.major == other.major && self.minor == other.minor && self.patch
            == other.patch && self.pre == other.pre && self.build == other.build;
        proof {
            if self@ == other@ {
                assert(self.pre@ == other.pre@);
            }
        }
        same
    }

    /// Writes the version as text.
    pub fn to_text(&self) -> (text: String)
        ensures
            text@ == self@.text(),
            self@.wf(),
    {
        proof {
            use_type_invariant(self);
        }
        let mut text = decimal_text(self.major);
        text.append(".");
        text.append(decimal_text(self.minor).as_str());
        text.append(".");
        text.append(decimal_text(self.patch).as_str());
        if !self.pre.as_str().is_empty() {
            text.append("-");
            text.append(self.pre.as_str());
        }
        assert(text@ =~= decimal(self.major as nat) + "."@ + decimal(self.minor as nat) + "."@
            + decimal(self.patch as nat) + self@.pre_text());
        if !self.build.as_str().is_empty() {
            text.append("+");
            text.append(self.build.as_str());
        }
        assert(text@ =~= self@.text());
        text
    }

    /// Reads a version from text. The text is accepted exactly when it is the
    /// text of a well-formed version, and that version is returned.
    pub fn parse(text: &str) -> (parsed: Result<Self, semver::Error>)
        ensures
            match parts_of_text(text@) {
                Some(p) => parsed matches Ok(v) && v@ == p,
                None => parsed is Err,
            },
    {
        let parsed = parse_with_semver(text);
        proof {
            if let Ok(v) = &parsed {
                lemma_parts_of_text(v@);
            }
        }
        parsed
    }
}

} // verus!
