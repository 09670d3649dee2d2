//! The legacy identifier form: `<name> <version> (<kind>+<url>)`, three
//! whitespace-delimited fields.
use crate::descriptor::{result_view, ClassifyError, Descriptor, DescriptorView, GitRepo, GitRepoView};
use crate::text::{
    after, chars_of, contains, fields, fields_exec, find_exec, find_mark, find_mark_exec,
    remove_char, remove_char_exec, slice_of, equals_lit, second_piece, string_of, string_of_range,
};
use vstd::prelude::*;
use vstd::string::*;

verus! {

/// The source annotation of the default registry.
pub open spec fn default_registry_annotation() -> Seq<char> {
    "(registry+https://github.com/rust-lang/crates.io-index)"@
}

/// The text before the first query or fragment mark.
pub open spec fn before_mark(s: Seq<char>) -> Seq<char> {
    match find_mark(s) {
        Some(k) => s.subrange(0, k),
        None => s,
    }
}

/// A legacy git source `<url>[?<query>]#<commit>`, split on `?` and `#`: the
/// URL is the first piece, the commit the third piece if there is one, else
/// the second. Tag and branch cannot be told apart here: only the commit is set.
pub open spec fn legacy_git(repo: Seq<char>) -> Option<GitRepoView> {
    match find_mark(repo) {
        None => None,
        Some(i) => {
            let rest = repo.subrange(i + 1, repo.len() as int);
            let commit = match find_mark(rest) {
                None => rest,
                Some(j) => before_mark(rest.subrange(j + 1, rest.len() as int)),
            };
            Some(GitRepoView { url: repo.subrange(0, i), tag: None, branch: None, commit: Some(commit) })
        },
    }
}

/// The source part of an annotation `(<kind>+<source>)`: the text after the
/// first `+` up to the next one, with every `)` removed.
pub open spec fn annotation_source(f: Seq<char>) -> Option<Seq<char>> {
    match second_piece(f, "+"@) {
        Some(p) => Some(remove_char(p, ')')),
        None => None,
    }
}

/// How a legacy identifier is classified.
pub open spec fn legacy_classification(id: Seq<char>) -> Result<DescriptorView, ClassifyError> {
    let f = fields(id);
    if f.len() < 3 {
        Err(ClassifyError::MissingFields)
    } else if f[2] == default_registry_annotation() {
        Ok(DescriptorView::Crate("crate://crates.io/"@ + f[0] + "/"@ + f[1]))
    } else if contains(f[2], "(path+"@) {
        match annotation_source(f[2]) {
            None => Err(ClassifyError::MissingPath),
            Some(repo) => match after(repo, "file://"@) {
                Some(p) => Ok(DescriptorView::Path(p)),
                None => Err(ClassifyError::MissingPath),
            },
        }
    } else if contains(f[2], "(git+"@) {
        match annotation_source(f[2]) {
            None => Err(ClassifyError::MissingRevision),
            Some(repo) => match legacy_git(repo) {
                Some(g) => Ok(DescriptorView::Git(g)),
                None => Err(ClassifyError::MissingRevision),
            },
        }
    } else {
        Err(ClassifyError::UnsupportedKind)
    }
}

/// The characters before the first query or fragment mark.
fn before_mark_exec(s: &Vec<char>) -> (r: Vec<char>)
    ensures
        r@ == before_mark(s@),
{
    match find_mark_exec(s) {
        Some(k) => slice_of(s, 0, k),
        None => s.clone(),
    }
}

/// Splits a legacy git source into URL and commit.
pub fn legacy_git_exec(repo: &Vec<char>) -> (r: Option<GitRepo>)
    ensures
        match r {
            Some(g) => legacy_git(repo@) == Some(g@),
            None => legacy_git(repo@) is None,
        },
{
    let n = repo.len();
    match find_mark_exec(repo) {
        None => None,
        Some(i) => {
            let rest = slice_of(repo, i + 1, n);
            let commit = match find_mark_exec(&rest) {
                None => rest,
                Some(j) => {
                    let rest2 = slice_of(&rest, j + 1, rest.len());
                    before_mark_exec(&rest2)
                },
            };
            let url = slice_of(repo, 0, i);
            Some(GitRepo { url: string_of(&url), tag: None, branch: None, commit: Some(string_of(&commit)) })
        },
    }
}

/// The source part of a `(<kind>+<source>)` annotation.
fn annotation_source_exec(f: &Vec<char>) -> (r: Option<Vec<char>>)
    ensures
        match r {
            Some(p) => annotation_source(f@) == Some(p@),
            None => annotation_source(f@) is None,
        },
{
    let plus = chars_of("+");
    let n = f.len();
    match find_exec(f, &plus) {
        None => None,
        Some(i) => {
            let rest = slice_of(f, i + plus.len(), n);
            let piece = match find_exec(&rest, &plus) {
                Some(j) => slice_of(&rest, 0, j),
                None => rest,
            };
            Some(remove_char_exec(&piece, ')'))
        },
    }
}

/// Classifies a legacy identifier.
pub fn classify_legacy(id: &str) -> (r: Result<Descriptor, ClassifyError>)
    ensures
        result_view(r) == legacy_classification(id@),
{
    let s = chars_of(id);
    let f = fields_exec(&s);
    if f.len() < 3 {
        return Err(ClassifyError::MissingFields);
    }
    let third = &f[2];
    if equals_lit(third, "(registry+https://github.com/rust-lang/crates.io-index)") {
        let mut c = String::from_str("crate://crates.io/");
        c.append(string_of(&f[0]).as_str());
        c.append("/");
        c.append(string_of(&f[1]).as_str());
        return Ok(Descriptor::Crate(c));
    }
    if find_exec(third, &chars_of("(path+")).is_some() {
        match annotation_source_exec(third) {
            None => Err(ClassifyError::MissingPath),
            Some(repo) => {
                let marker = chars_of("file://");
                let n = repo.len();
                match find_exec(&repo, &marker) {
                    Some(i) => Ok(Descriptor::Path(string_of_range(&repo, i + marker.len(), n))),
                    None => Err(ClassifyError::MissingPath),
                }
            },
        }
    } else if find_exec(third, &chars_of("(git+")).is_some() {
        match annotation_source_exec(third) {
            None => Err(ClassifyError::MissingRevision),
            Some(repo) => match legacy_git_exec(&repo) {
                Some(g) => Ok(Descriptor::Git(g)),
                None => Err(ClassifyError::MissingRevision),
            },
        }
    } else {
        Err(ClassifyError::UnsupportedKind)
    }
}

} // verus!
