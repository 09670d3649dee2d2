use cargo_recipe::descriptor::{ClassifyError, Descriptor, GitRepo};
use cargo_recipe::package_id::{classify_package_id, parse_package_id, GitPin, PackageId, PackageKind, SourceUrl};
use cargo_recipe::recipe::{get_repo_folder_name, render};
use cargo_recipe::sources::{classify, collect_sources, Sources, Strategy};
use cargo_recipe::tool::tool_version;

fn ids(v: &[&str]) -> Vec<String> {
    v.iter().map(|s| s.to_string()).collect()
}

fn crate_of(d: Result<Descriptor, ClassifyError>) -> String {
    match d {
        Ok(Descriptor::Crate(c)) => c,
        _ => panic!("not a crate"),
    }
}

fn git_of(d: Result<Descriptor, ClassifyError>) -> GitRepo {
    match d {
        Ok(Descriptor::Git(g)) => g,
        _ => panic!("not a git source"),
    }
}

fn err_of(d: Result<Descriptor, ClassifyError>) -> ClassifyError {
    match d {
        Err(e) => e,
        Ok(_) => panic!("classified"),
    }
}

fn git(url: &str, tag: Option<&str>, branch: Option<&str>, commit: Option<&str>) -> Descriptor {
    Descriptor::Git(GitRepo {
        url: url.to_string(),
        tag: tag.map(|s| s.to_string()),
        branch: branch.map(|s| s.to_string()),
        commit: commit.map(|s| s.to_string()),
    })
}

fn registry_id(url: &str, authority: &str, path: &str) -> PackageId {
    PackageId {
        name: "foo".to_string(),
        version: Some("1.2.3".to_string()),
        url: Some(SourceUrl { text: url.to_string(), authority: authority.to_string(), path: path.to_string() }),
        kind: Some(PackageKind::Registry),
    }
}

#[test]
fn registry_default_structured() {
    let r = classify("registry+https://github.com/rust-lang/crates.io-index#foo@1.2.3", Strategy::Structured);
    assert_eq!(crate_of(r), "crate://crates.io/foo/1.2.3");
}

#[test]
fn registry_default_legacy() {
    let r = classify("foo 1.2.3 (registry+https://github.com/rust-lang/crates.io-index)", Strategy::Legacy);
    assert_eq!(crate_of(r), "crate://crates.io/foo/1.2.3");
}

#[test]
fn registry_default_rendered() {
    let (s, d) = collect_sources(
        &ids(&["foo 1.2.3 (registry+https://github.com/rust-lang/crates.io-index)"]),
        Strategy::Legacy,
    );
    assert!(d.is_empty());
    let lines = render(&s);
    assert_eq!(lines, vec!["", "SRC_URI += \" \\", "    crate://crates.io/foo/1.2.3 \\", "\"", ""]);
}

#[test]
fn registry_other_url_keeps_authority_and_path() {
    let r = classify_package_id(&registry_id("https://my.reg/index", "my.reg", "/index"));
    assert_eq!(crate_of(r), "crate://my.reg/index/foo/1.2.3");
    let r = classify("registry+https://my.reg/index#foo@1.2.3", Strategy::Structured);
    assert_eq!(crate_of(r), "crate://my.reg/index/foo/1.2.3");
}

#[test]
fn registry_alias_only_for_default_url() {
    let r = classify_package_id(&registry_id("https://github.com/rust-lang/crates.io-index", "github.com", "/rust-lang/crates.io-index"));
    assert_eq!(crate_of(r), "crate://crates.io/foo/1.2.3");
    let r = classify_package_id(&registry_id("https://github.com/rust-lang/crates.io-index/", "github.com", "/rust-lang/crates.io-index/"));
    assert_eq!(crate_of(r), "crate://github.com/rust-lang/crates.io-index//foo/1.2.3");
}

#[test]
fn sparse_registry_is_a_registry() {
    let mut p = registry_id("sparse+https://my.reg/index/", "my.reg", "/index/");
    p.kind = Some(PackageKind::SparseRegistry);
    assert_eq!(crate_of(classify_package_id(&p)), "crate://my.reg/index//foo/1.2.3");
}

#[test]
fn git_branch_line() {
    let r = classify("git+https://github.com/x/y.git?branch=main#y@0.1.0", Strategy::Structured);
    let g = git_of(r);
    assert_eq!(g.url, "https://github.com/x/y.git");
    assert_eq!(g.branch.as_deref(), Some("main"));
    assert_eq!(g.tag, None);
    assert_eq!(g.commit, None);
    let mut s = Sources::new();
    s.add(Descriptor::Git(g));
    let lines = render(&s);
    assert_eq!(
        lines,
        vec![
            "",
            "SRC_URI += \" \\",
            "    git://github.com/x/y.git;lfs=0;nobranch=1;branch=main;protocol=https;destsuffix=y;name=y \\",
            "\"",
            "",
            "",
            "EXTRA_OECARGO_PATHS += \"\\",
            "    ${WORKDIR}/y \\",
            "\"",
        ]
    );
    assert!(!lines.iter().any(|l| l.starts_with("SRCREV")));
}

#[test]
fn git_commit_lines() {
    let r = classify("git+https://github.com/x/y?rev=abc123#y@0.1.0", Strategy::Structured);
    let g = git_of(r);
    assert_eq!(g.commit.as_deref(), Some("abc123"));
    let mut s = Sources::new();
    s.add(Descriptor::Git(g));
    let lines = render(&s);
    assert_eq!(
        lines,
        vec![
            "",
            "SRC_URI += \" \\",
            "    git://github.com/x/y;lfs=0;nobranch=1;protocol=https;destsuffix=y;name=y \\",
            "\"",
            "",
            "SRCREV_FORMAT .= \"_y\"",
            "SRCREV_y = \"abc123\"",
            "",
            "EXTRA_OECARGO_PATHS += \"\\",
            "    ${WORKDIR}/y \\",
            "\"",
        ]
    );
}

#[test]
fn git_commit_legacy() {
    let g = git_of(classify("y 0.1.0 (git+https://github.com/x/y#abc123)", Strategy::Legacy));
    assert_eq!(g.url, "https://github.com/x/y");
    assert_eq!(g.commit.as_deref(), Some("abc123"));
    assert_eq!(g.tag, None);
    assert_eq!(g.branch, None);
}

#[test]
fn git_legacy_branch_collapses_to_commit() {
    let g = git_of(classify("y 0.1.0 (git+https://github.com/x/y?branch=main#abc123)", Strategy::Legacy));
    assert_eq!(g.url, "https://github.com/x/y");
    assert_eq!(g.commit.as_deref(), Some("abc123"));
    assert_eq!(g.tag, None);
    assert_eq!(g.branch, None);
}

#[test]
fn git_tag_line() {
    let mut s = Sources::new();
    s.add(git("ssh://git.example.com/a/b.git", Some("v1"), None, None));
    let lines = render(&s);
    assert_eq!(lines[2], "    git://git.example.com/a/b.git;lfs=0;nobranch=1;tag=v1;protocol=ssh;destsuffix=b;name=b \\");
}

#[test]
fn git_reference_kinds() {
    let t = git_of(classify("git+https://h/o/r?tag=v2#r@1.0.0", Strategy::Structured));
    assert_eq!((t.tag.as_deref(), t.branch.as_deref(), t.commit.as_deref()), (Some("v2"), None, None));
    let d = git_of(classify("git+https://h/o/r#r@1.0.0", Strategy::Structured));
    assert_eq!((d.tag, d.branch, d.commit), (None, None, None));
    let p = PackageId {
        name: "r".to_string(),
        version: None,
        url: Some(SourceUrl { text: "https://h/o/r".to_string(), authority: "h".to_string(), path: "/o/r".to_string() }),
        kind: Some(PackageKind::Git(GitPin::Rev("c0ffee".to_string()))),
    };
    let c = git_of(classify_package_id(&p));
    assert_eq!((c.tag, c.branch, c.commit.as_deref()), (None, None, Some("c0ffee")));
}

#[test]
fn path_is_recorded_not_rendered() {
    let (s, d) = collect_sources(&ids(&["path+file:///home/u/proj#proj@0.1.0"]), Strategy::Structured);
    assert!(d.is_empty());
    assert_eq!(s.paths(), vec!["/home/u/proj".to_string()]);
    assert!(s.crates().is_empty());
    assert!(s.git_repos().is_empty());
    assert_eq!(render(&s), vec!["", "SRC_URI += \" \\", "\"", ""]);
}

#[test]
fn path_legacy() {
    let r = classify("proj 0.1.0 (path+file:///home/u/proj)", Strategy::Legacy);
    match r {
        Ok(Descriptor::Path(p)) => assert_eq!(p, "/home/u/proj"),
        _ => panic!("not a path"),
    }
}

#[test]
fn unrecognized_kind_gives_one_diagnostic() {
    let id = "foo 1.0.0 (local+file:///x)";
    let (s, d) = collect_sources(&ids(&[id, "bar 2.0.0 (registry+https://github.com/rust-lang/crates.io-index)"]), Strategy::Legacy);
    assert_eq!(d.len(), 1);
    assert!(d[0].contains(id));
    assert_eq!(d[0], "[not handled] foo 1.0.0 (local+file:///x): invalid data provided");
    assert_eq!(s.crates(), vec!["crate://crates.io/bar/2.0.0".to_string()]);
    assert!(s.git_repos().is_empty());
    assert!(s.paths().is_empty());
    let lines = render(&s);
    assert!(!lines.iter().any(|l| l.contains("foo")));
}

#[test]
fn unrecognized_kind_structured() {
    let id = "directory+file:///x#foo@1.0.0";
    let (s, d) = collect_sources(&ids(&[id]), Strategy::Structured);
    assert_eq!(d.len(), 1);
    assert!(d[0].contains(id));
    assert!(s.crates().is_empty() && s.git_repos().is_empty() && s.paths().is_empty());
}

#[test]
fn folder_name_with_and_without_suffix() {
    assert_eq!(get_repo_folder_name("https://github.com/org/repo.git".to_string()), "repo");
    assert_eq!(get_repo_folder_name("https://github.com/org/repo".to_string()), "repo");
    assert_eq!(get_repo_folder_name("github.com/org/repo.git".to_string()), "repo");
    assert_eq!(get_repo_folder_name("repo.git.mirror".to_string()), "repo.git.mirror");
    assert_eq!(get_repo_folder_name("".to_string()), "");
}

#[test]
fn same_crate_twice_is_held_once() {
    let id = "foo 1.2.3 (registry+https://github.com/rust-lang/crates.io-index)";
    let (s, _) = collect_sources(&ids(&[id, id]), Strategy::Legacy);
    assert_eq!(s.crates(), vec!["crate://crates.io/foo/1.2.3".to_string()]);
    assert_eq!(render(&s).iter().filter(|l| l.contains("crate://")).count(), 1);
}

#[test]
fn git_sources_dedup_by_url_and_reference() {
    let (s, _) = collect_sources(
        &ids(&[
            "git+https://github.com/x/y?branch=main#a@0.1.0",
            "git+https://github.com/x/y?branch=main#b@0.2.0",
            "git+https://github.com/x/y?branch=dev#a@0.1.0",
        ]),
        Strategy::Structured,
    );
    let g = s.git_repos();
    assert_eq!(g.len(), 2);
    assert_eq!(g[0].branch.as_deref(), Some("main"));
    assert_eq!(g[1].branch.as_deref(), Some("dev"));
}

#[test]
fn first_insertion_order_is_kept() {
    let reg = "(registry+https://github.com/rust-lang/crates.io-index)";
    let a = format!("a 1.0.0 {}", reg);
    let b = format!("b 1.0.0 {}", reg);
    let c = format!("c 1.0.0 {}", reg);
    let (s, _) = collect_sources(&vec![b.clone(), a.clone(), b.clone(), c, a], Strategy::Legacy);
    assert_eq!(
        s.crates(),
        vec![
            "crate://crates.io/b/1.0.0".to_string(),
            "crate://crates.io/a/1.0.0".to_string(),
            "crate://crates.io/c/1.0.0".to_string(),
        ]
    );
    let lines = render(&s);
    assert_eq!(lines[2], "    crate://crates.io/b/1.0.0 \\");
    assert_eq!(lines[3], "    crate://crates.io/a/1.0.0 \\");
    assert_eq!(lines[4], "    crate://crates.io/c/1.0.0 \\");
}

#[test]
fn git_order_and_paths_block() {
    let mut s = Sources::new();
    s.add(git("https://h/o/second.git", None, None, Some("2")));
    s.add(git("https://h/o/first", None, Some("b"), None));
    s.add(git("https://h/o/second.git", None, None, Some("2")));
    let lines = render(&s);
    assert_eq!(
        lines,
        vec![
            "",
            "SRC_URI += \" \\",
            "    git://h/o/second.git;lfs=0;nobranch=1;protocol=https;destsuffix=second;name=second \\",
            "    git://h/o/first;lfs=0;nobranch=1;branch=b;protocol=https;destsuffix=first;name=first \\",
            "\"",
            "",
            "SRCREV_FORMAT .= \"_second\"",
            "SRCREV_second = \"2\"",
            "",
            "EXTRA_OECARGO_PATHS += \"\\",
            "    ${WORKDIR}/second \\",
            "    ${WORKDIR}/first \\",
            "\"",
        ]
    );
}

#[test]
fn classification_is_repeatable() {
    let id = "y 0.1.0 (git+https://github.com/x/y?branch=main#abc123)";
    let a = git_of(classify(id, Strategy::Legacy));
    let b = git_of(classify(id, Strategy::Legacy));
    assert_eq!((a.url, a.tag, a.branch, a.commit), (b.url, b.tag, b.branch, b.commit));
    let bad = "y 0.1.0 (svn+x)";
    assert_eq!(err_of(classify(bad, Strategy::Legacy)), err_of(classify(bad, Strategy::Legacy)));
}

#[test]
fn error_variants() {
    assert_eq!(err_of(classify("foo 1.0.0", Strategy::Legacy)), ClassifyError::MissingFields);
    assert_eq!(err_of(classify("foo 1.0.0 (path+/home/x)", Strategy::Legacy)), ClassifyError::MissingPath);
    assert_eq!(err_of(classify("foo 1.0.0 (git+https://x/y)", Strategy::Legacy)), ClassifyError::MissingRevision);
    assert_eq!(err_of(classify("foo 1.0.0 (svn+https://x/y)", Strategy::Legacy)), ClassifyError::UnsupportedKind);
    assert_eq!(err_of(classify("not a spec!!", Strategy::Structured)), ClassifyError::Unparsable);
    assert_eq!(err_of(classify("foo@1.0.0", Strategy::Structured)), ClassifyError::MissingKind);
    assert_eq!(
        err_of(classify("registry+https://github.com/rust-lang/crates.io-index#foo", Strategy::Structured)),
        ClassifyError::MissingVersion
    );
    let mut p = registry_id("x", "x", "x");
    p.url = None;
    assert_eq!(err_of(classify_package_id(&p)), ClassifyError::MissingUrl);
    let p = PackageId {
        name: "p".to_string(),
        version: None,
        url: Some(SourceUrl { text: "https://x/p".to_string(), authority: "x".to_string(), path: "/p".to_string() }),
        kind: Some(PackageKind::Path),
    };
    assert_eq!(err_of(classify_package_id(&p)), ClassifyError::MissingPath);
    let mut p = registry_id("x", "x", "x");
    p.kind = Some(PackageKind::LocalRegistry);
    assert_eq!(err_of(classify_package_id(&p)), ClassifyError::UnsupportedKind);
    assert_eq!(ClassifyError::MissingUrl.message(), "package doesn't have url");
}

#[test]
fn parsed_package_id_parts() {
    let p = parse_package_id("registry+https://my.reg/index#foo@1.2.3").expect("parses");
    assert_eq!(p.name, "foo");
    assert_eq!(p.version.as_deref(), Some("1.2.3"));
    let u = p.url.expect("url");
    assert_eq!(u.text, "https://my.reg/index");
    assert_eq!(u.authority, "my.reg");
    assert_eq!(u.path, "/index");
    assert!(matches!(p.kind, Some(PackageKind::Registry)));
}

#[test]
fn strategy_by_tool_version() {
    assert_eq!(Strategy::for_tool_version(1, 77), Strategy::Structured);
    assert_eq!(Strategy::for_tool_version(1, 80), Strategy::Structured);
    assert_eq!(Strategy::for_tool_version(2, 0), Strategy::Structured);
    assert_eq!(Strategy::for_tool_version(1, 76), Strategy::Legacy);
    assert_eq!(Strategy::for_tool_version(0, 99), Strategy::Legacy);
}

#[test]
fn fields_split_on_any_whitespace() {
    let r = classify("  foo\t1.2.3 \n (registry+https://github.com/rust-lang/crates.io-index)  ", Strategy::Legacy);
    assert_eq!(crate_of(r), "crate://crates.io/foo/1.2.3");
}

#[test]
fn legacy_git_query_noise_collapses() {
    let (s, d) = collect_sources(
        &ids(&[
            "y 0.1.0 (git+https://github.com/x/y?branch=main#abc123)",
            "y 0.1.0 (git+https://github.com/x/y?rev=abc123#abc123)",
            "y 0.1.0 (git+https://github.com/x/y#def456)",
        ]),
        Strategy::Legacy,
    );
    assert!(d.is_empty());
    let g = s.git_repos();
    assert_eq!(g.len(), 2);
    assert_eq!(g[0].commit.as_deref(), Some("abc123"));
    assert_eq!(g[1].commit.as_deref(), Some("def456"));
}

#[test]
fn empty_fragment_is_unparsable_not_a_panic() {
    assert!(!cargo_recipe::guard::parse_guard_exec("https://github.com/x/y#"));
    assert_eq!(err_of(classify("https://github.com/x/y#", Strategy::Structured)), ClassifyError::Unparsable);
}

#[test]
fn empty_host_after_prefix_is_unparsable_not_a_panic() {
    assert!(!cargo_recipe::guard::parse_guard_exec("git+https://"));
    assert_eq!(err_of(classify("git+https://", Strategy::Structured)), ClassifyError::Unparsable);
    assert_eq!(err_of(classify("registry+https://a.0xfffffffffff/x#foo@1.0.0", Strategy::Structured)), ClassifyError::Unparsable);
}

#[test]
fn guard_admits_ordinary_identifiers() {
    for id in [
        "registry+https://github.com/rust-lang/crates.io-index#foo@1.2.3",
        "sparse+https://index.crates.io/#foo@1.0.0",
        "git+ssh://git@github.com/x/y.git?tag=v1#y@0.1.0",
        "git+https://github.com:443/x/y?rev=abc#y@0.1.0",
        "path+file:///home/u/proj#proj@0.1.0",
        "foo@1.0.0",
        "not a spec!!",
    ] {
        assert!(cargo_recipe::guard::parse_guard_exec(id), "{}", id);
    }
}

#[test]
fn sparse_and_ssh_structured() {
    let r = classify("sparse+https://index.crates.io/#foo@1.0.0", Strategy::Structured);
    assert_eq!(crate_of(r), "crate://index.crates.io//foo/1.0.0");
    let g = git_of(classify("git+ssh://git@github.com/x/y.git?tag=v1#y@0.1.0", Strategy::Structured));
    assert_eq!(g.url, "ssh://git@github.com/x/y.git");
    assert_eq!((g.tag.as_deref(), g.branch, g.commit), (Some("v1"), None, None));
}

#[test]
fn structured_collection_skips_misses_and_repeats() {
    let reg = "registry+https://github.com/rust-lang/crates.io-index#foo@1.2.3";
    let git = "git+https://github.com/x/y?rev=abc123#y@0.1.0";
    let path = "path+file:///home/u/proj#proj@0.1.0";
    let bad = "directory+file:///x#foo@1.0.0";
    let (s, d) = collect_sources(&ids(&[reg, bad, git, path, reg, git, path]), Strategy::Structured);
    assert_eq!(d.len(), 1);
    assert!(d[0].contains(bad));
    assert_eq!(s.crates(), vec!["crate://crates.io/foo/1.2.3".to_string()]);
    assert_eq!(s.git_repos().len(), 1);
    assert_eq!(s.paths(), vec!["/home/u/proj".to_string(), "/home/u/proj".to_string()]);
    let (s2, d2) = collect_sources(&ids(&[reg, git, path, path]), Strategy::Structured);
    assert!(d2.is_empty());
    assert_eq!(s.crates(), s2.crates());
    assert_eq!(s.paths(), s2.paths());
    assert_eq!(render(&s), render(&s2));
}

#[test]
fn both_forms_agree_on_registry_and_path() {
    let a = crate_of(classify("foo 1.2.3 (registry+https://github.com/rust-lang/crates.io-index)", Strategy::Legacy));
    let b = crate_of(classify("registry+https://github.com/rust-lang/crates.io-index#foo@1.2.3", Strategy::Structured));
    assert_eq!(a, b);
    let p1 = classify("proj 0.1.0 (path+file:///home/u/proj)", Strategy::Legacy);
    let p2 = classify("path+file:///home/u/proj#proj@0.1.0", Strategy::Structured);
    match (p1, p2) {
        (Ok(Descriptor::Path(x)), Ok(Descriptor::Path(y))) => assert_eq!(x, y),
        _ => panic!("not paths"),
    }
}

#[test]
fn prefixed_scheme_must_start_with_a_letter() {
    for id in ["git+://host/x", "registry+://host/x#foo@1.0.0", "git++https://host/x", "git+file://user@host/x", "git+file://host:8/x"] {
        assert!(!cargo_recipe::guard::parse_guard_exec(id), "{}", id);
        assert_eq!(err_of(classify(id, Strategy::Structured)), ClassifyError::Unparsable, "{}", id);
    }
}

#[test]
fn ipv4_and_underscore_hosts_are_classified() {
    let g = git_of(classify("git+https://192.168.0.10/org/repo.git#repo@0.1.0", Strategy::Structured));
    assert_eq!(g.url, "https://192.168.0.10/org/repo.git");
    let g = git_of(classify("git+https://my_host.example.com/org/repo#repo@0.1.0", Strategy::Structured));
    assert_eq!(g.url, "https://my_host.example.com/org/repo");
    let r = classify("registry+https://10.0.0.1:8080/index#foo@1.0.0", Strategy::Structured);
    assert_eq!(crate_of(r), "crate://10.0.0.1:8080/index/foo/1.0.0");
    let g = git_of(classify("git+file://localhost/srv/repo#repo@0.1.0", Strategy::Structured));
    assert_eq!(g.url, "file:///srv/repo");
    assert!(!cargo_recipe::guard::parse_guard_exec("git+https://1.2.3.256/x"));
    assert!(!cargo_recipe::guard::parse_guard_exec("git+https://01.2.3.4/x"));
}

#[test]
fn tool_version_text() {
    assert_eq!(tool_version("cargo 1.80.0 (376290515 2024-07-16)"), (1, 80));
    assert_eq!(tool_version("cargo 1.76.0"), (1, 76));
    assert_eq!(tool_version("cargo 2"), (2, 0));
    assert_eq!(tool_version(""), (0, 0));
    assert_eq!(tool_version("cargo x.y.z"), (0, 0));
    assert_eq!(tool_version("cargo 99999999999.5.0"), (0, 5));
    assert_eq!(Strategy::for_tool_version(tool_version("cargo 1.77.0").0, tool_version("cargo 1.77.0").1), Strategy::Structured);
}

#[test]
fn register_all_extends_existing_sources() {
    let reg = "(registry+https://github.com/rust-lang/crates.io-index)";
    let mut s = Sources::new();
    s.add(Descriptor::Crate("crate://crates.io/z/1.0.0".to_string()));
    let d = s.register_all(&vec![format!("a 1.0.0 {}", reg), "bad".to_string(), format!("z 1.0.0 {}", reg)], Strategy::Legacy);
    assert_eq!(d, vec!["[not handled] bad: identifier doesn't have three fields".to_string()]);
    assert_eq!(s.crates(), vec!["crate://crates.io/z/1.0.0".to_string(), "crate://crates.io/a/1.0.0".to_string()]);
}
