//! The structured identifier form (a package ID spec with scheme, kind, query
//! and fragment), parsed by `cargo_util_schemas` and classified here.
use crate::descriptor::{opt_view, result_view, ClassifyError, Descriptor, DescriptorView, GitRepo, GitRepoView};
use crate::guard::{parse_guard, parse_guard_exec};
use crate::text::{chars_of, equals_lit, matches_at, occurs_at, string_of_range};
use vstd::prelude::*;
use vstd::string::*;

verus! {

/// The reference a git source is pinned to.
pub enum GitPin {
    Tag(String),
    Branch(String),
    Rev(String),
    DefaultBranch,
}

/// The view of a `GitPin`.
pub enum GitPinView {
    Tag(Seq<char>),
    Branch(Seq<char>),
    Rev(Seq<char>),
    DefaultBranch,
}

impl View for GitPin {
    type V = GitPinView;

    open spec fn view(&self) -> GitPinView {
        match self {
            GitPin::Tag(t) => GitPinView::Tag(t@),
            GitPin::Branch(b) => GitPinView::Branch(b@),
            GitPin::Rev(c) => GitPinView::Rev(c@),
            GitPin::DefaultBranch => GitPinView::DefaultBranch,
        }
    }
}

/// The kind of source a package ID spec names.
pub enum PackageKind {
    Git(GitPin),
    Path,
    Registry,
    SparseRegistry,
    LocalRegistry,
    Directory,
}

/// The view of a `PackageKind`.
pub enum PackageKindView {
    Git(GitPinView),
    Path,
    Registry,
    SparseRegistry,
    LocalRegistry,
    Directory,
}

impl View for PackageKind {
    type V = PackageKindView;

    open spec fn view(&self) -> PackageKindView {
        match self {
            PackageKind::Git(pin) => PackageKindView::Git(pin@),
            PackageKind::Path => PackageKindView::Path,
            PackageKind::Registry => PackageKindView::Registry,
            PackageKind::SparseRegistry => PackageKindView::SparseRegistry,
            PackageKind::LocalRegistry => PackageKindView::LocalRegistry,
            PackageKind::Directory => PackageKindView::Directory,
        }
    }
}

/// The URL of a package ID spec: its full text, and its authority and path.
pub struct SourceUrl {
    pub text: String,
    pub authority: String,
    pub path: String,
}

/// The view of a `SourceUrl`.
pub struct SourceUrlView {
    pub text: Seq<char>,
    pub authority: Seq<char>,
    pub path: Seq<char>,
}

impl View for SourceUrl {
    type V = SourceUrlView;

    open spec fn view(&self) -> SourceUrlView {
        SourceUrlView { text: self.text@, authority: self.authority@, path: self.path@ }
    }
}

pub open spec fn opt_url_view(u: Option<SourceUrl>) -> Option<SourceUrlView> {
    match u {
        Some(u) => Some(u@),
        None => None,
    }
}

/// The parts of a parsed package ID spec that classification reads.
pub struct PackageId {
    pub name: String,
    pub version: Option<String>,
    pub url: Option<SourceUrl>,
    pub kind: Option<PackageKind>,
}

/// The view of a `PackageId`.
pub struct PackageIdView {
    pub name: Seq<char>,
    pub version: Option<Seq<char>>,
    pub url: Option<SourceUrlView>,
    pub kind: Option<PackageKindView>,
}

impl View for PackageId {
    type V = PackageIdView;

    open spec fn view(&self) -> PackageIdView {
        PackageIdView {
            name: self.name@,
            version: opt_view(self.version),
            url: opt_url_view(self.url),
            kind: match self.kind {
                Some(k) => Some(k@),
                None => None,
            },
        }
    }
}

pub open spec fn opt_id_view(p: Option<PackageId>) -> Option<PackageIdView> {
    match p {
        Some(p) => Some(p@),
        None => None,
    }
}

/// A package ID spec as the parser's accessors give it: the kind as
/// `SourceKind::protocol` names it (`Some(None)` for a sparse registry, which
/// has no protocol name), and a git reference as `branch=..`, `tag=..` or
/// `rev=..` (`None` for the default branch).
pub struct ParsedSpec {
    pub name: String,
    pub version: Option<String>,
    pub url: Option<SourceUrl>,
    pub protocol: Option<Option<String>>,
    pub reference: Option<String>,
}

/// The view of a `ParsedSpec`.
pub struct ParsedSpecView {
    pub name: Seq<char>,
    pub version: Option<Seq<char>>,
    pub url: Option<SourceUrlView>,
    pub protocol: Option<Option<Seq<char>>>,
    pub reference: Option<Seq<char>>,
}

impl View for ParsedSpec {
    type V = ParsedSpecView;

    open spec fn view(&self) -> ParsedSpecView {
        ParsedSpecView {
            name: self.name@,
            version: opt_view(self.version),
            url: opt_url_view(self.url),
            protocol: match self.protocol {
                Some(p) => Some(opt_view(p)),
                None => None,
            },
            reference: opt_view(self.reference),
        }
    }
}

pub open spec fn opt_parsed_view(p: Option<ParsedSpec>) -> Option<ParsedSpecView> {
    match p {
        Some(p) => Some(p@),
        None => None,
    }
}

/// What `PackageIdSpec::parse` and its accessors give for a spec.
pub uninterp spec fn parsed_spec(s: Seq<char>) -> Option<ParsedSpecView>;

/// The pin a rendered git reference names.
pub open spec fn pin_of(reference: Option<Seq<char>>) -> GitPinView {
    match reference {
        None => GitPinView::DefaultBranch,
        Some(r) => match strip_prefix(r, "branch="@) {
            Some(b) => GitPinView::Branch(b),
            None => match strip_prefix(r, "tag="@) {
                Some(t) => GitPinView::Tag(t),
                None => match strip_prefix(r, "rev="@) {
                    Some(c) => GitPinView::Rev(c),
                    None => GitPinView::DefaultBranch,
                },
            },
        },
    }
}

/// The kind a protocol name stands for; `SourceKind::protocol` gives no name
/// but these five, and none for a sparse registry.
pub open spec fn kind_of(protocol: Option<Option<Seq<char>>>, reference: Option<Seq<char>>) -> Option<
    PackageKindView,
> {
    match protocol {
        None => None,
        Some(None) => Some(PackageKindView::SparseRegistry),
        Some(Some(p)) => Some(
            if p == "git"@ {
                PackageKindView::Git(pin_of(reference))
            } else if p == "path"@ {
                PackageKindView::Path
            } else if p == "registry"@ {
                PackageKindView::Registry
            } else if p == "local-registry"@ {
                PackageKindView::LocalRegistry
            } else {
                PackageKindView::Directory
            },
        ),
    }
}

/// The package ID a parsed spec describes.
pub open spec fn decode(raw: ParsedSpecView) -> PackageIdView {
    PackageIdView {
        name: raw.name,
        version: raw.version,
        url: raw.url,
        kind: kind_of(raw.protocol, raw.reference),
    }
}

/// The package ID of a structured identifier: none where it is outside the
/// parser's guard or does not parse.
pub open spec fn parsed_package_id(s: Seq<char>) -> Option<PackageIdView> {
    if !parse_guard(s) {
        None
    } else {
        match parsed_spec(s) {
            None => None,
            Some(raw) => Some(decode(raw)),
        }
    }
}

/// How a structured identifier is classified.
pub open spec fn structured_classification(s: Seq<char>) -> Result<DescriptorView, ClassifyError> {
    match parsed_package_id(s) {
        None => Err(ClassifyError::Unparsable),
        Some(p) => package_id_classification(p),
    }
}

/// The canonical index URL of the default registry.
pub open spec fn default_registry_url() -> Seq<char> {
    "https://github.com/rust-lang/crates.io-index"@
}

/// The host part of a registry descriptor: the `crates.io` alias for the
/// default registry, else `crate://` followed by the URL's authority and path
/// (its query and fragment are left out).
pub open spec fn registry_host(u: SourceUrlView) -> Seq<char> {
    if u.text == default_registry_url() {
        "crate://crates.io"@
    } else {
        "crate://"@ + u.authority + u.path
    }
}

/// The git descriptor for a URL and a reference: exactly the matching pin set.
pub open spec fn git_descriptor(url: Seq<char>, pin: GitPinView) -> GitRepoView {
    match pin {
        GitPinView::Tag(t) => GitRepoView { url, tag: Some(t), branch: None, commit: None },
        GitPinView::Branch(b) => GitRepoView { url, tag: None, branch: Some(b), commit: None },
        GitPinView::Rev(c) => GitRepoView { url, tag: None, branch: None, commit: Some(c) },
        GitPinView::DefaultBranch => GitRepoView { url, tag: None, branch: None, commit: None },
    }
}

/// `s` without the prefix `pat`, if it starts with it.
pub open spec fn strip_prefix(s: Seq<char>, pat: Seq<char>) -> Option<Seq<char>> {
    if occurs_at(s, pat, 0) {
        Some(s.subrange(pat.len() as int, s.len() as int))
    } else {
        None
    }
}

/// How a parsed package ID spec is classified.
pub open spec fn package_id_classification(p: PackageIdView) -> Result<DescriptorView, ClassifyError> {
    match p.kind {
        None => Err(ClassifyError::MissingKind),
        Some(PackageKindView::Registry) | Some(PackageKindView::SparseRegistry) => match p.url {
            None => Err(ClassifyError::MissingUrl),
            Some(u) => match p.version {
                None => Err(ClassifyError::MissingVersion),
                Some(v) => Ok(DescriptorView::Crate(registry_host(u) + "/"@ + p.name + "/"@ + v)),
            },
        },
        Some(PackageKindView::Git(pin)) => match p.url {
            None => Err(ClassifyError::MissingUrl),
            Some(u) => Ok(DescriptorView::Git(git_descriptor(u.text, pin))),
        },
        Some(PackageKindView::Path) => match p.url {
            None => Err(ClassifyError::MissingUrl),
            Some(u) => match strip_prefix(u.text, "file://"@) {
                Some(path) => Ok(DescriptorView::Path(path)),
                None => Err(ClassifyError::MissingPath),
            },
        },
        Some(_) => Err(ClassifyError::UnsupportedKind),
    }
}

fn registry_descriptor(u: &SourceUrl, name: &String, version: &String) -> (r: String)
    ensures
        r@ == registry_host(u@) + "/"@ + name@ + "/"@ + version@,
{
    let mut r = if equals_lit(&chars_of(u.text.as_str()), "https://github.com/rust-lang/crates.io-index") {
        String::from_str("crate://crates.io")
    } else {
        let mut h = String::from_str("crate://");
        h.append(u.authority.as_str());
        h.append(u.path.as_str());
        h
    };
    r.append("/");
    r.append(name.as_str());
    r.append("/");
    r.append(version.as_str());
    r
}

fn git_repo(url: &String, pin: &GitPin) -> (r: GitRepo)
    ensures
        r@ == git_descriptor(url@, pin@),
{
    match pin {
        GitPin::Tag(t) => GitRepo { url: url.clone(), tag: Some(t.clone()), branch: None, commit: None },
        GitPin::Branch(b) => GitRepo { url: url.clone(), tag: None, branch: Some(b.clone()), commit: None },
        GitPin::Rev(c) => GitRepo { url: url.clone(), tag: None, branch: None, commit: Some(c.clone()) },
        GitPin::DefaultBranch => GitRepo { url: url.clone(), tag: None, branch: None, commit: None },
    }
}

fn strip_prefix_exec(url: &String, prefix: &str) -> (r: Option<String>)
    ensures
        opt_view(r) == strip_prefix(url@, prefix@),
{
    let s = chars_of(url.as_str());
    let marker = chars_of(prefix);
    if matches_at(&s, &marker, 0) {
        Some(string_of_range(&s, marker.len(), s.len()))
    } else {
        None
    }
}

/// Classifies a parsed package ID spec.
pub fn classify_package_id(p: &PackageId) -> (r: Result<Descriptor, ClassifyError>)
    ensures
        result_view(r) == package_id_classification(p@),
{
    match &p.kind {
        None => Err(ClassifyError::MissingKind),
        Some(PackageKind::Registry) | Some(PackageKind::SparseRegistry) => match &p.url {
            None => Err(ClassifyError::MissingUrl),
            Some(u) => match &p.version {
                None => Err(ClassifyError::MissingVersion),
                Some(v) => Ok(Descriptor::Crate(registry_descriptor(u, &p.name, v))),
            },
        },
        Some(PackageKind::Git(pin)) => match &p.url {
            None => Err(ClassifyError::MissingUrl),
            Some(u) => Ok(Descriptor::Git(git_repo(&u.text, pin))),
        },
        Some(PackageKind::Path) => match &p.url {
            None => Err(ClassifyError::MissingUrl),
            Some(u) => match strip_prefix_exec(&u.text, "file://") {
                Some(path) => Ok(Descriptor::Path(path)),
                None => Err(ClassifyError::MissingPath),
            },
        },
        Some(_) => Err(ClassifyError::UnsupportedKind),
    }
}

fn pin_of_exec(reference: &Option<String>) -> (r: GitPin)
    ensures
        r@ == pin_of(opt_view(*reference)),
{
    match reference {
        None => GitPin::DefaultBranch,
        Some(r) => match strip_prefix_exec(r, "branch=") {
            Some(b) => GitPin::Branch(b),
            None => match strip_prefix_exec(r, "tag=") {
                Some(t) => GitPin::Tag(t),
                None => match strip_prefix_exec(r, "rev=") {
                    Some(c) => GitPin::Rev(c),
                    None => GitPin::DefaultBranch,
                },
            },
        },
    }
}

/// The package ID a parsed spec describes.
pub fn decode_parsed(raw: ParsedSpec) -> (r: PackageId)
    ensures
        r@ == decode(raw@),
{
    let kind = match &raw.protocol {
        None => None,
        Some(None) => Some(PackageKind::SparseRegistry),
        Some(Some(p)) => Some(
            if equals_lit(&chars_of(p.as_str()), "git") {
                PackageKind::Git(pin_of_exec(&raw.reference))
            } else if equals_lit(&chars_of(p.as_str()), "path") {
                PackageKind::Path
            } else if equals_lit(&chars_of(p.as_str()), "registry") {
                PackageKind::Registry
            } else if equals_lit(&chars_of(p.as_str()), "local-registry") {
                PackageKind::LocalRegistry
            } else {
                PackageKind::Directory
            },
        ),
    };
    PackageId { name: raw.name, version: raw.version, url: raw.url, kind }
}

/// Relies on `PackageIdSpec::parse` (`None` where it fails) and on its
/// accessors `name`, `version` (`semver::Version` shown by `Display`), `url`
/// (`Url::as_str`, `authority`, `path`), `kind` through `SourceKind::protocol`,
/// and for a git source `GitReference::pretty_ref` unencoded. The result
/// depends on the spec alone: the parser looks at the disk only for a spec
/// with `/` or `\` and no `://`, which fails name validation either way.
/// Inside the guard the parser does not panic: no empty URL fragment, and the
/// URL left after a `<kind>+` prefix is taken off parses again.
#[verifier::external_body]
fn parse_spec(s: &str) -> (r: Option<ParsedSpec>)
    requires
        parse_guard(s@),
    ensures
        opt_parsed_view(r) == parsed_spec(s@),
{
    let p = cargo_util_schemas::core::PackageIdSpec::parse(s).ok()?;
    let reference = match p.kind() {
        Some(cargo_util_schemas::core::SourceKind::Git(g)) => g.pretty_ref(false).map(|r| r.to_string()),
        _ => None,
    };
    let url = p.url().map(|u| SourceUrl { text: u.as_str().into(), authority: u.authority().into(), path: u.path().into() });
    let protocol = p.kind().map(|k| k.protocol().map(|k| k.into()));
    Some(ParsedSpec { name: p.name().into(), version: p.version().map(|v| v.to_string()), url, protocol, reference })
}

/// Parses a structured identifier into the parts classification reads;
/// `None` where it is outside the parser's guard or does not parse.
pub fn parse_package_id(s: &str) -> (r: Option<PackageId>)
    ensures
        opt_id_view(r) == parsed_package_id(s@),
{
    if !parse_guard_exec(s) {
        return None;
    }
    match parse_spec(s) {
        None => None,
        Some(raw) => Some(decode_parsed(raw)),
    }
}

/// Classifies a structured identifier: one that does not parse is an
/// `Unparsable` failure; one that parses is classified by
/// `classify_package_id`.
pub fn classify_structured(s: &str) -> (r: Result<Descriptor, ClassifyError>)
    ensures
        result_view(r) == structured_classification(s@),
{
    match parse_package_id(s) {
        None => Err(ClassifyError::Unparsable),
        Some(p) => classify_package_id(&p),
    }
}

} // verus!
