//! The descriptors a package identifier is classified into, and the reasons
//! a classification can fail.
use vstd::prelude::*;
use vstd::string::*;

verus! {

/// The view of an optional string.
pub open spec fn opt_view(o: Option<String>) -> Option<Seq<char>> {
    match o {
        Some(s) => Some(s@),
        None => None,
    }
}

/// A git source: its URL and at most one pin (tag, branch or commit).
/// No pin at all stands for the default branch.
pub struct GitRepo {
    pub url: String,
    pub tag: Option<String>,
    pub branch: Option<String>,
    pub commit: Option<String>,
}

/// The view of a `GitRepo`: its fields as character sequences.
pub struct GitRepoView {
    pub url: Seq<char>,
    pub tag: Option<Seq<char>>,
    pub branch: Option<Seq<char>>,
    pub commit: Option<Seq<char>>,
}

impl View for GitRepo {
    type V = GitRepoView;

    open spec fn view(&self) -> GitRepoView {
        GitRepoView {
            url: self.url@,
            tag: opt_view(self.tag),
            branch: opt_view(self.branch),
            commit: opt_view(self.commit),
        }
    }
}

/// At most one of tag, branch and commit is set.
pub open spec fn pins_exclusive(g: GitRepoView) -> bool {
    &&& g.tag is Some ==> g.branch is None && g.commit is None
    &&& g.branch is Some ==> g.commit is None
}

/// A classified package source.
pub enum Descriptor {
    /// A registry crate, as `crate://<host><path>/<name>/<version>`.
    Crate(String),
    Git(GitRepo),
    /// A local filesystem path.
    Path(String),
}

/// The view of a `Descriptor`.
pub enum DescriptorView {
    Crate(Seq<char>),
    Git(GitRepoView),
    Path(Seq<char>),
}

impl View for Descriptor {
    type V = DescriptorView;

    open spec fn view(&self) -> DescriptorView {
        match self {
            Descriptor::Crate(c) => DescriptorView::Crate(c@),
            Descriptor::Git(g) => DescriptorView::Git(g@),
            Descriptor::Path(p) => DescriptorView::Path(p@),
        }
    }
}

/// Why an identifier could not be classified.
#[derive(Clone, Copy, Debug, PartialEq, Eq, Structural)]
pub enum ClassifyError {
    /// A structured identifier that does not parse.
    Unparsable,
    /// The identifier does not say what kind of source it is.
    MissingKind,
    /// A registry, git or path source without a URL.
    MissingUrl,
    /// A registry source without a version.
    MissingVersion,
    /// A path source whose URL is not a `file://` URL.
    MissingPath,
    /// A legacy git annotation without a revision.
    MissingRevision,
    /// A legacy identifier with fewer than three fields.
    MissingFields,
    /// A kind of source that is not handled (local registry, directory, other).
    UnsupportedKind,
}

/// The view of a classification result.
pub open spec fn result_view(r: Result<Descriptor, ClassifyError>) -> Result<DescriptorView, ClassifyError> {
    match r {
        Ok(d) => Ok(d@),
        Err(e) => Err(e),
    }
}

/// The human-readable reason for a classification failure.
pub open spec fn error_message(e: ClassifyError) -> Seq<char> {
    match e {
        ClassifyError::Unparsable => "identifier is not a valid package ID spec"@,
        ClassifyError::MissingKind => "package doesn't have any kind"@,
        ClassifyError::MissingUrl => "package doesn't have url"@,
        ClassifyError::MissingVersion => "package doesn't have version"@,
        ClassifyError::MissingPath => "package url is not a file:// url"@,
        ClassifyError::MissingRevision => "git source doesn't have a revision"@,
        ClassifyError::MissingFields => "identifier doesn't have three fields"@,
        ClassifyError::UnsupportedKind => "invalid data provided"@,
    }
}

impl ClassifyError {
    /// The human-readable reason for this failure.
    pub fn message(&self) -> (r: String)
        ensures
            r@ == error_message(*self),
    {
        match self {
            ClassifyError::Unparsable => String::from_str("identifier is not a valid package ID spec"),
            ClassifyError::MissingKind => String::from_str("package doesn't have any kind"),
            ClassifyError::MissingUrl => String::from_str("package doesn't have url"),
            ClassifyError::MissingVersion => String::from_str("package doesn't have version"),
            ClassifyError::MissingPath => String::from_str("package url is not a file:// url"),
            ClassifyError::MissingRevision => String::from_str(
                "git source doesn't have a revision",
            ),
            ClassifyError::MissingFields => String::from_str(
                "identifier doesn't have three fields",
            ),
            ClassifyError::UnsupportedKind => String::from_str("invalid data provided"),
        }
    }
}

} // verus!
