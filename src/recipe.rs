//! Rendering of collected sources as recipe lines.
use crate::descriptor::GitRepoView;
use crate::sources::{Sources, SourcesView};
use crate::text::{
    after, chars_of, find, find_exec, matches_at, occurs_at, rfind_char, rfind_char_exec, string_of_range,
};
use vstd::prelude::*;
use vstd::string::*;

verus! {

/// The text after the last `/` (all of `s` when there is none).
pub open spec fn last_segment(s: Seq<char>) -> Seq<char> {
    match rfind_char(s, '/') {
        Some(i) => s.subrange(i + 1, s.len() as int),
        None => s,
    }
}

/// `s` without a trailing `.git`.
pub open spec fn strip_git_suffix(s: Seq<char>) -> Seq<char> {
    let k = ".git"@.len();
    if k <= s.len() && occurs_at(s, ".git"@, s.len() - k) {
        s.subrange(0, s.len() - k)
    } else {
        s
    }
}

/// The checkout folder of a repository: its last path segment without a
/// trailing `.git`.
pub open spec fn repo_folder(url: Seq<char>) -> Seq<char> {
    strip_git_suffix(last_segment(url))
}

/// The checkout folder of a repository URL (without its scheme): the last
/// path segment, without a trailing `.git`.
pub fn get_repo_folder_name(url: String) -> (r: String)
    ensures
        r@ == repo_folder(url@),
{
    let s = chars_of(url.as_str());
    let n = s.len();
    let start: usize = match rfind_char_exec(&s, '/') {
        Some(i) => i + 1,
        None => 0,
    };
    let suffix = chars_of(".git");
    let seg_len = n - start;
    let ghost seg = s@.subrange(start as int, n as int);
    assert(last_segment(s@) == seg) by {
        if rfind_char(s@, '/') is None {
            assert(seg =~= s@);
        }
    };
    let end: usize = if suffix.len() <= seg_len && matches_at(&s, &suffix, n - suffix.len()) {
        assert(occurs_at(seg, ".git"@, seg.len() - suffix@.len())) by {
            assert(seg.subrange(seg.len() - suffix@.len(), seg.len() as int) =~= s@.subrange(
                n - suffix@.len(),
                n as int,
            ));
        };
        n - suffix.len()
    } else {
        assert(!(suffix@.len() <= seg.len() && occurs_at(seg, ".git"@, seg.len() - suffix@.len())))
            by {
            if suffix@.len() <= seg.len() && occurs_at(seg, ".git"@, seg.len() - suffix@.len()) {
                assert(seg.subrange(seg.len() - suffix@.len(), seg.len() as int) =~= s@.subrange(
                    n - suffix@.len(),
                    n as int,
                ));
            }
        };
        n
    };
    let r = string_of_range(&s, start, end);
    assert(r@ =~= repo_folder(url@));
    r
}

/// The scheme of a URL: the text before `://` (empty when there is none).
pub open spec fn url_protocol(url: Seq<char>) -> Seq<char> {
    match find(url, "://"@) {
        Some(i) => url.subrange(0, i),
        None => Seq::empty(),
    }
}

/// The host and path of a URL: the text after the first `://` (all of it
/// when there is none).
pub open spec fn url_host_path(url: Seq<char>) -> Seq<char> {
    match after(url, "://"@) {
        Some(r) => r,
        None => url,
    }
}

/// The checkout folder of a git source.
pub open spec fn git_folder(g: GitRepoView) -> Seq<char> {
    repo_folder(url_host_path(g.url))
}

/// `branch=<b>;` for a branch, else `tag=<t>;` for a tag, else nothing: a
/// commit never stands here.
pub open spec fn pin_clause(g: GitRepoView) -> Seq<char> {
    match g.branch {
        Some(b) => "branch="@ + b + ";"@,
        None => match g.tag {
            Some(t) => "tag="@ + t + ";"@,
            None => Seq::empty(),
        },
    }
}

/// The recipe line of a registry crate.
pub open spec fn crate_line(c: Seq<char>) -> Seq<char> {
    "    "@ + c + " \\"@
}

/// The recipe line of a git source.
pub open spec fn git_line(g: GitRepoView) -> Seq<char> {
    "    git://"@ + url_host_path(g.url) + ";lfs=0;nobranch=1;"@ + pin_clause(g) + "protocol="@
        + url_protocol(g.url) + ";destsuffix="@ + git_folder(g) + ";name="@ + git_folder(g)
        + " \\"@
}

/// The revision lines of a git source: two for a commit, none otherwise.
pub open spec fn srcrev_lines(g: GitRepoView) -> Seq<Seq<char>> {
    match g.commit {
        Some(c) => seq![
            "SRCREV_FORMAT .= \"_"@ + git_folder(g) + "\""@,
            "SRCREV_"@ + git_folder(g) + " = \""@ + c + "\""@,
        ],
        None => Seq::empty(),
    }
}

/// The revision lines of each git source in turn.
pub open spec fn srcrev_block(gs: Seq<GitRepoView>) -> Seq<Seq<char>>
    decreases gs.len(),
{
    if gs.len() == 0 {
        Seq::empty()
    } else {
        srcrev_block(gs.drop_last()) + srcrev_lines(gs.last())
    }
}

/// The checkout path line of a git source.
pub open spec fn workdir_line(g: GitRepoView) -> Seq<char> {
    "    ${WORKDIR}/"@ + git_folder(g) + " \\"@
}

/// The block of checkout paths; absent when there is no git source.
pub open spec fn paths_block(gs: Seq<GitRepoView>) -> Seq<Seq<char>> {
    if gs.len() == 0 {
        Seq::empty()
    } else {
        seq![Seq::empty(), "EXTRA_OECARGO_PATHS += \"\\"@] + gs.map_values(|g| workdir_line(g))
            + seq!["\""@]
    }
}

/// The recipe lines for collected sources: the crate and git block, the
/// revision lines, then the checkout paths.
pub open spec fn recipe_lines(v: SourcesView) -> Seq<Seq<char>> {
    seq![Seq::empty(), "SRC_URI += \" \\"@] + v.crates.map_values(|c| crate_line(c))
        + v.git.map_values(|g| git_line(g)) + seq!["\""@, Seq::empty()] + srcrev_block(v.git)
        + paths_block(v.git)
}

/// The views of a sequence of lines.
pub open spec fn lines_view(lines: Seq<String>) -> Seq<Seq<char>> {
    lines.map_values(|s: String| s@)
}

fn push_line(lines: &mut Vec<String>, l: String)
    ensures
        lines_view(final(lines)@) == lines_view(old(lines)@).push(l@),
{
    let ghost before = lines@;
    lines.push(l);
    assert(lines_view(lines@) =~= lines_view(before).push(l@));
}

/// Splits a URL into its scheme and its host and path.
fn split_url(url: &String) -> (r: (String, String))
    ensures
        r.0@ == url_protocol(url@),
        r.1@ == url_host_path(url@),
{
    let s = chars_of(url.as_str());
    let sep = chars_of("://");
    let n = s.len();
    match find_exec(&s, &sep) {
        Some(i) => (string_of_range(&s, 0, i), string_of_range(&s, i + sep.len(), n)),
        None => (String::new(), url.clone()),
    }
}

/// The recipe line of a git source, and its checkout folder.
fn git_line_exec(g: &crate::descriptor::GitRepo) -> (r: (String, String))
    ensures
        r.0@ == git_line(g@),
        r.1@ == git_folder(g@),
{
    let (protocol, host_path) = split_url(&g.url);
    let folder = get_repo_folder_name(host_path.clone());
    let mut l = String::from_str("    git://");
    l.append(host_path.as_str());
    l.append(";lfs=0;nobranch=1;");
    match &g.branch {
        Some(b) => {
            l.append("branch=");
            l.append(b.as_str());
            l.append(";");
        },
        None => match &g.tag {
            Some(t) => {
                l.append("tag=");
                l.append(t.as_str());
                l.append(";");
            },
            None => {},
        },
    }
    l.append("protocol=");
    l.append(protocol.as_str());
    l.append(";destsuffix=");
    l.append(folder.as_str());
    l.append(";name=");
    l.append(folder.as_str());
    l.append(" \\");
    assert(l@ =~= git_line(g@));
    (l, folder)
}

/// The recipe lines for the collected sources.
pub fn render(sources: &Sources) -> (r: Vec<String>)
    ensures
        lines_view(r@) == recipe_lines(sources@),
{
    let ghost v = sources@;
    let crates = sources.crates();
    let git = sources.git_repos();
    let mut lines: Vec<String> = Vec::new();
    push_line(&mut lines, String::new());
    push_line(&mut lines, String::from_str("SRC_URI += \" \\"));
    let ghost head = seq![Seq::<char>::empty(), "SRC_URI += \" \\"@];
    assert(lines_view(lines@) =~= head);
    let mut i: usize = 0;
    while i < crates.len()
        invariant
            i <= crates@.len() == v.crates.len(),
            forall|k: int| 0 <= k < crates@.len() ==> #[trigger] crates@[k]@ == v.crates[k],
            lines_view(lines@) == head + v.crates.subrange(0, i as int).map_values(|c| crate_line(c)),
        decreases crates@.len() - i,
    {
        let mut l = String::from_str("    ");
        l.append(crates[i].as_str());
        l.append(" \\");
        push_line(&mut lines, l);
        assert(v.crates.subrange(0, i + 1).map_values(|c| crate_line(c)) =~= v.crates.subrange(
            0,
            i as int,
        ).map_values(|c| crate_line(c)).push(crate_line(v.crates[i as int])));
        i += 1;
    }
    assert(v.crates.subrange(0, i as int) =~= v.crates);
    let ghost head2 = lines_view(lines@);
    let mut folders: Vec<String> = Vec::new();
    i = 0;
    while i < git.len()
        invariant
            i <= git@.len() == v.git.len(),
            forall|k: int| 0 <= k < git@.len() ==> #[trigger] git@[k]@ == v.git[k],
            lines_view(lines@) == head2 + v.git.subrange(0, i as int).map_values(|g| git_line(g)),
            folders@.len() == i,
            forall|k: int| 0 <= k < i ==> #[trigger] folders@[k]@ == git_folder(v.git[k]),
        decreases git@.len() - i,
    {
        let (l, folder) = git_line_exec(&git[i]);
        push_line(&mut lines, l);
        folders.push(folder);
        assert(v.git.subrange(0, i + 1).map_values(|g| git_line(g)) =~= v.git.subrange(
            0,
            i as int,
        ).map_values(|g| git_line(g)).push(git_line(v.git[i as int])));
        i += 1;
    }
    assert(v.git.subrange(0, i as int) =~= v.git);
    push_line(&mut lines, String::from_str("\""));
    push_line(&mut lines, String::new());
    let ghost head3 = lines_view(lines@);
    assert(head3 =~= head + v.crates.map_values(|c| crate_line(c)) + v.git.map_values(
        |g| git_line(g),
    ) + seq!["\""@, Seq::<char>::empty()]);
    i = 0;
    while i < git.len()
        invariant
            i <= git@.len() == v.git.len() == folders@.len(),
            forall|k: int| 0 <= k < git@.len() ==> #[trigger] git@[k]@ == v.git[k],
            forall|k: int| 0 <= k < git@.len() ==> #[trigger] folders@[k]@ == git_folder(v.git[k]),
            lines_view(lines@) == head3 + srcrev_block(v.git.subrange(0, i as int)),
        decreases git@.len() - i,
    {
        let ghost before = lines_view(lines@);
        assert(git@[i as int]@ == v.git[i as int]);
        assert(folders@[i as int]@ == git_folder(v.git[i as int]));
        match &git[i].commit {
            Some(c) => {
                let mut l1 = String::from_str("SRCREV_FORMAT .= \"_");
                l1.append(folders[i].as_str());
                l1.append("\"");
                let mut l2 = String::from_str("SRCREV_");
                l2.append(folders[i].as_str());
                l2.append(" = \"");
                l2.append(c.as_str());
                l2.append("\"");
                push_line(&mut lines, l1);
                push_line(&mut lines, l2);
                assert(lines_view(lines@) =~= before + srcrev_lines(v.git[i as int]));
            },
            None => {
                assert(lines_view(lines@) =~= before + srcrev_lines(v.git[i as int]));
            },
        }
        assert(v.git.subrange(0, i + 1).drop_last() =~= v.git.subrange(0, i as int));
        i += 1;
    }
    assert(v.git.subrange(0, i as int) =~= v.git);
    let ghost head4 = lines_view(lines@);
    if git.len() > 0 {
        push_line(&mut lines, String::new());
        push_line(&mut lines, String::from_str("EXTRA_OECARGO_PATHS += \"\\"));
        let ghost head5 = lines_view(lines@);
        i = 0;
        while i < folders.len()
            invariant
                i <= folders@.len() == v.git.len(),
                forall|k: int| 0 <= k < folders@.len() ==> #[trigger] folders@[k]@ == git_folder(v.git[k]),
                lines_view(lines@) == head5 + v.git.subrange(0, i as int).map_values(|g| workdir_line(g)),
            decreases folders@.len() - i,
        {
            let mut l = String::from_str("    ${WORKDIR}/");
            l.append(folders[i].as_str());
            l.append(" \\");
            push_line(&mut lines, l);
            assert(v.git.subrange(0, i + 1).map_values(|g| workdir_line(g)) =~= v.git.subrange(
                0,
                i as int,
            ).map_values(|g| workdir_line(g)).push(workdir_line(v.git[i as int])));
            i += 1;
        }
        assert(v.git.subrange(0, i as int) =~= v.git);
        push_line(&mut lines, String::from_str("\""));
        assert(lines_view(lines@) =~= head4 + paths_block(v.git));
    } else {
        assert(lines_view(lines@) =~= head4 + paths_block(v.git));
    }
    assert(lines_view(lines@) =~= recipe_lines(v));
    lines
}

} // verus!
