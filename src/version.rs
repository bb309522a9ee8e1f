//! Semantic versions of the protocol and their negotiation.

use vstd::prelude::*;
use vstd::string::*;

use crate::error::CniErrorCode;
use crate::text::{decimal, push_decimal, push_str, split, string_from_chars};

verus! {

/// A semantic version: three numbers, a pre-release tag and build metadata
/// (each tag empty when absent).
#[derive(Debug)]
pub struct Version {
    pub major: u64,
    pub minor: u64,
    pub patch: u64,
    pub pre: String,
    pub build: String,
}

/// The mathematical value of a [`Version`].
pub struct VersionSpec {
    pub major: nat,
    pub minor: nat,
    pub patch: nat,
    pub pre: Seq<char>,
    pub build: Seq<char>,
}

impl View for Version {
    type V = VersionSpec;

    open spec fn view(&self) -> VersionSpec {
        VersionSpec {
            major: self.major as nat,
            minor: self.minor as nat,
            patch: self.patch as nat,
            pre: self.pre@,
            build: self.build@,
        }
    }
}

/// What `semver` makes of a text: the parts of the version it denotes, or
/// `None` where the text is no semantic version.
pub uninterp spec fn semver_parse(s: Seq<char>) -> Option<VersionSpec>;

/// The view of an optional version.
pub open spec fn opt_version_view(v: Option<Version>) -> Option<VersionSpec> {
    match v {
        Some(x) => Some(x@),
        None => None,
    }
}

/// Relies on `semver::Version::parse`: the parts of the version that the text
/// denotes, or an error where it is not a semantic version.
#[verifier::external_body]
pub(crate) fn parse_semver(s: &str) -> (r: Option<Version>)
    ensures
        opt_version_view(r) == semver_parse(s@),
{
    match semver::Version::parse(s) {
        Ok(v) => Some(Version {
            major: v.major,
            minor: v.minor,
            patch: v.patch,
            pre: v.pre.as_str().to_string(),
            build: v.build.as_str().to_string(),
        }),
        Err(_) => None,
    }
}

/// The canonical text of a version: `major.minor.patch`, then `-pre` and
/// `+build` where those are not empty.
pub open spec fn version_text(v: VersionSpec) -> Seq<char> {
    decimal(v.major) + seq!['.'] + decimal(v.minor) + seq!['.'] + decimal(v.patch)
        + (if v.pre.len() > 0 { seq!['-'] + v.pre } else { Seq::empty() })
        + (if v.build.len() > 0 { seq!['+'] + v.build } else { Seq::empty() })
}

/// `a` is below `b` by major, minor and patch number.
pub open spec fn triple_lt(a: VersionSpec, b: VersionSpec) -> bool {
    a.major < b.major || (a.major == b.major && (a.minor < b.minor || (a.minor == b.minor
        && a.patch < b.patch)))
}

/// `a` comes before `b` in character order (a proper prefix comes first).
pub open spec fn chars_lt(a: Seq<char>, b: Seq<char>) -> bool
    decreases a.len(),
{
    if a.len() == 0 {
        b.len() > 0
    } else if b.len() == 0 {
        false
    } else if a[0] != b[0] {
        a[0] < b[0]
    } else {
        chars_lt(a.drop_first(), b.drop_first())
    }
}

/// Every character of `s` is an ASCII digit.
pub open spec fn all_digits(s: Seq<char>) -> bool {
    forall|i: int| 0 <= i < s.len() ==> '0' <= #[trigger] s[i] && s[i] <= '9'
}

/// Pre-release identifier `a` has lower precedence than `b`: numeric
/// identifiers compare by value (length, then digits), are below any other
/// identifier, and other identifiers compare in ASCII order.
pub open spec fn ident_lt(a: Seq<char>, b: Seq<char>) -> bool {
    if all_digits(a) && all_digits(b) {
        a.len() < b.len() || (a.len() == b.len() && chars_lt(a, b))
    } else if all_digits(a) {
        true
    } else if all_digits(b) {
        false
    } else {
        chars_lt(a, b)
    }
}

/// Identifier list `x` has lower precedence than `y`: the first identifier
/// that differs decides, and a list that is a proper prefix of the other is
/// lower.
pub open spec fn idents_lt(x: Seq<Seq<char>>, y: Seq<Seq<char>>) -> bool
    decreases x.len(),
{
    if y.len() == 0 {
        false
    } else if x.len() == 0 {
        true
    } else if x[0] == y[0] {
        idents_lt(x.drop_first(), y.drop_first())
    } else {
        ident_lt(x[0], y[0])
    }
}

/// Pre-release tag `p` has lower precedence than `q`: a release (empty tag)
/// is above every pre-release, and pre-releases compare by their
/// `.`-separated identifiers.
pub open spec fn pre_lt(p: Seq<char>, q: Seq<char>) -> bool {
    if p.len() == 0 {
        false
    } else if q.len() == 0 {
        true
    } else {
        idents_lt(split(p, '.'), split(q, '.'))
    }
}

/// `a` has lower semantic-version precedence than `b`: by major, minor and
/// patch number, then by pre-release tag; build metadata does not count.
pub open spec fn precedes(a: VersionSpec, b: VersionSpec) -> bool {
    triple_lt(a, b) || (a.major == b.major && a.minor == b.minor && a.patch == b.patch && pre_lt(
        a.pre,
        b.pre,
    ))
}

/// The list is in release order: no version has lower precedence than one
/// listed before it.
pub open spec fn in_release_order(s: Seq<VersionSpec>) -> bool {
    forall|i: int, j: int| 0 <= i < j < s.len() ==> !precedes(#[trigger] s[j], #[trigger] s[i])
}

/// A plugin offering `offered` can serve a caller that asks for `requested`:
/// same major number, and a minor number at least as high.
pub open spec fn compatible(requested: VersionSpec, offered: VersionSpec) -> bool {
    offered.major == requested.major && offered.minor >= requested.minor
}

/// `requested` is listed in `supported`, or served by a listed version.
pub open spec fn accepts(requested: VersionSpec, supported: Seq<VersionSpec>) -> bool {
    exists|i: int|
        0 <= i < supported.len() && (supported[i] == requested || compatible(
            requested,
            #[trigger] supported[i],
        ))
}

/// No identifier list has lower precedence than itself.
proof fn lemma_idents_irreflexive(x: Seq<Seq<char>>)
    ensures
        !idents_lt(x, x),
    decreases x.len(),
{
    if x.len() > 0 {
        lemma_idents_irreflexive(x.drop_first());
    }
}

/// No version has lower precedence than itself.
pub proof fn lemma_precedes_irreflexive(v: VersionSpec)
    ensures
        !precedes(v, v),
{
    lemma_idents_irreflexive(split(v.pre, '.'));
}

/// No version of `supported` has higher precedence than `h`.
pub open spec fn is_highest(h: VersionSpec, supported: Seq<VersionSpec>) -> bool {
    forall|j: int| 0 <= j < supported.len() ==> !precedes(h, #[trigger] supported[j])
}

/// The views of a list of versions.
pub open spec fn versions_view(v: Seq<Version>) -> Seq<VersionSpec> {
    v.map_values(|x: Version| x@)
}

impl Version {
    /// A release version with empty pre-release tag and build metadata.
    pub fn new(major: u64, minor: u64, patch: u64) -> (r: Version)
        ensures
            r@ == (VersionSpec { major: major as nat, minor: minor as nat, patch: patch as nat,
                pre: Seq::empty(), build: Seq::empty() }),
    {
        Version { major, minor, patch, pre: String::new(), build: String::new() }
    }

    /// A copy of this version.
    pub fn copy(&self) -> (r: Version)
        ensures
            r@ == self@,
    {
        Version {
            major: self.major,
            minor: self.minor,
            patch: self.patch,
            pre: self.pre.clone(),
            build: self.build.clone(),
        }
    }

    /// Parses a semantic version; `None` where the text is not one.
    pub fn parse(s: &str) -> (r: Option<Version>)
        ensures
            opt_version_view(r) == semver_parse(s@),
    {
        parse_semver(s)
    }

    /// The canonical text of this version.
    pub fn to_text(&self) -> (r: String)
        ensures
            r@ == version_text(self@),
    {
        let mut out: Vec<char> = Vec::new();
        push_decimal(&mut out, self.major);
        out.push('.');
        push_decimal(&mut out, self.minor);
        out.push('.');
        push_decimal(&mut out, self.patch);
        if self.pre.unicode_len() > 0 {
            out.push('-');
            push_str(&mut out, self.pre.as_str());
        }
        if self.build.unicode_len() > 0 {
            out.push('+');
            push_str(&mut out, self.build.as_str());
        }
        let r = string_from_chars(&out);
        assert(r@ =~= version_text(self@));
        r
    }
}

/// Negotiates the protocol version against a list in release order:
/// `requested` is accepted where `supported` lists it or a version that
/// serves it, and is then returned; otherwise the error carries the highest
/// supported version, the last one listed.
pub fn check_version(requested: &Version, supported: &Vec<Version>) -> (r: Result<
    Version,
    CniErrorCode,
>)
    requires
        supported@.len() > 0,
        in_release_order(versions_view(supported@)),
    ensures
        accepts(requested@, versions_view(supported@)) ==> (r matches Ok(v) && v@ == requested@),
        !accepts(requested@, versions_view(supported@)) ==> (r matches Err(
            CniErrorCode::IncompatibleVersion(h),
        ) && h@ == versions_view(supported@).last() && is_highest(
            h@,
            versions_view(supported@),
        )),
{
    let ghost sv = versions_view(supported@);
    let mut i: usize = 0;
    while i < supported.len()
        invariant
            sv == versions_view(supported@),
            i <= supported@.len(),
            forall|j: int|
                0 <= j < i ==> !(#[trigger] sv[j] == requested@ || compatible(requested@, sv[j])),
        decreases supported@.len() - i,
    {
        let s = &supported[i];
        if s.major == requested.major && s.minor >= requested.minor {
            assert(compatible(requested@, sv[i as int]));
            return Ok(requested.copy());
        }
        i += 1;
    }
    let last = supported.len() - 1;
    proof {
        assert forall|j: int| 0 <= j < sv.len() implies !precedes(sv[last as int], #[trigger] sv[j]) by {
            if j < last {
                assert(!precedes(sv[last as int], sv[j]));
            } else {
                lemma_precedes_irreflexive(sv[j]);
            }
        }
    }
    Err(CniErrorCode::IncompatibleVersion(supported[last].copy()))
}

/// The protocol version this library implements, as a value.
pub open spec fn current_spec() -> VersionSpec {
    VersionSpec { major: 1, minor: 1, patch: 0, pre: Seq::empty(), build: Seq::empty() }
}

/// The protocol version this library implements.
pub fn current() -> (r: Version)
    ensures
        r@ == current_spec(),
{
    Version::new(1, 1, 0)
}

/// What a plugin declares of itself: the protocol versions it implements, in
/// release order.
pub trait PluginInfo {
    /// The versions, as [`PluginInfo::supported_versions`] returns them.
    spec fn spec_supported(&self) -> Seq<VersionSpec>;

    /// The versions this plugin implements, in release order; never empty.
    fn supported_versions(&self) -> (r: Vec<Version>)
        ensures
            versions_view(r@) == self.spec_supported(),
            r@.len() > 0,
            in_release_order(self.spec_supported()),
    ;
}

/// A plugin that implements only the earliest protocol versions.
pub struct Legacy;

/// A plugin that implements every published protocol version.
pub struct All;

/// The release versions given as (major, minor, patch) triples.
pub open spec fn releases(t: Seq<(nat, nat, nat)>) -> Seq<VersionSpec> {
    t.map_values(|x: (nat, nat, nat)| VersionSpec { major: x.0, minor: x.1, patch: x.2,
        pre: Seq::empty(), build: Seq::empty() })
}

impl PluginInfo for Legacy {
    open spec fn spec_supported(&self) -> Seq<VersionSpec> {
        releases(seq![(0, 1, 0), (0, 2, 0)])
    }

    fn supported_versions(&self) -> (r: Vec<Version>) {
        let r = vec![Version::new(0, 1, 0), Version::new(0, 2, 0)];
        assert(versions_view(r@) =~= self.spec_supported());
        r
    }
}

impl PluginInfo for All {
    open spec fn spec_supported(&self) -> Seq<VersionSpec> {
        releases(seq![(0, 1, 0), (0, 2, 0), (0, 3, 0), (0, 3, 1), (0, 4, 0), (1, 0, 0), (1, 1, 0)])
    }

    fn supported_versions(&self) -> (r: Vec<Version>) {
        let r = vec![
            Version::new(0, 1, 0),
            Version::new(0, 2, 0),
            Version::new(0, 3, 0),
            Version::new(0, 3, 1),
            Version::new(0, 4, 0),
            Version::new(1, 0, 0),
            Version::new(1, 1, 0),
        ];
        assert(versions_view(r@) =~= self.spec_supported());
        r
    }
}

} // verus!
