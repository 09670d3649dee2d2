//! Properties of classification and collection that hold for all inputs.
use crate::descriptor::{pins_exclusive, DescriptorView, GitRepoView};
use crate::legacy::{before_mark, legacy_classification, legacy_git};
use crate::text::{find_mark, find_mark_from, is_mark};
use crate::package_id::{default_registry_url, git_descriptor, package_id_classification, PackageIdView, PackageKindView};
use crate::sources::{
    classification, collect_from, collected_diagnostics, collected_sources, diagnostic, sources_wf, insert_unique, record, record_result,
    SourcesView, Strategy,
};
use vstd::prelude::*;

verus! {

/// Recording a crate or a git source that is already held changes nothing:
/// the same descriptor recorded twice is held once.
pub proof fn lemma_record_twice(v: SourcesView, d: DescriptorView)
    requires
        !(d is Path),
    ensures
        record(record(v, d), d) == record(v, d),
{
    match d {
        DescriptorView::Crate(c) => {
            assert(insert_unique(v.crates, c).contains(c)) by {
                if !v.crates.contains(c) {
                    assert(v.crates.push(c)[v.crates.len() as int] == c);
                }
            }
        },
        DescriptorView::Git(g) => {
            assert(insert_unique(v.git, g).contains(g)) by {
                if !v.git.contains(g) {
                    assert(v.git.push(g)[v.git.len() as int] == g);
                }
            }
        },
        DescriptorView::Path(_) => {},
    }
}

/// Classifying an identifier depends on its text and the strategy alone, so
/// registering the same registry or git identifier again changes nothing, and
/// a miss stays the same miss.
pub proof fn lemma_register_repeatable(v: SourcesView, id: Seq<char>, strategy: Strategy)
    requires
        !(classification(id, strategy) matches Ok(d) && d is Path),
    ensures
        record_result(record_result(v, classification(id, strategy)), classification(id, strategy))
            == record_result(v, classification(id, strategy)),
{
    if let Ok(d) = classification(id, strategy) {
        lemma_record_twice(v, d);
    }
}

/// Two structured git identifiers with the same URL and the same reference
/// give one git source, whatever else they differ in (name, version, the
/// URL's authority and path as read apart).
pub proof fn lemma_git_noise_collapses(v: SourcesView, p1: PackageIdView, p2: PackageIdView)
    requires
        p1.kind matches Some(k) && k is Git,
        p1.kind == p2.kind,
        p1.url is Some,
        p2.url is Some,
        p1.url->0.text == p2.url->0.text,
    ensures
        package_id_classification(p1) == package_id_classification(p2),
        record_result(record_result(v, package_id_classification(p1)), package_id_classification(p2))
            == record_result(v, package_id_classification(p1)),
{
    lemma_record_twice(v, package_id_classification(p1)->Ok_0);
}

/// Two git sources that differ in URL or reference, neither held yet, are
/// both held after they are recorded, in that order.
pub proof fn lemma_distinct_git_kept(v: SourcesView, g1: GitRepoView, g2: GitRepoView)
    requires
        g1 != g2,
        !v.git.contains(g1),
        !v.git.contains(g2),
    ensures
        record(record(v, DescriptorView::Git(g1)), DescriptorView::Git(g2)).git == v.git.push(
            g1,
        ).push(g2),
{
    assert(!v.git.push(g1).contains(g2)) by {
        if v.git.push(g1).contains(g2) {
            let k = choose|k: int| 0 <= k < v.git.push(g1).len() && v.git.push(g1)[k] == g2;
            if k < v.git.len() {
                assert(v.git[k] == g2);
            }
        }
    }
}

/// Recording keeps what was held in place, in its order, and adds no
/// duplicate: the crates and git sources come out in first-insertion order.
pub proof fn lemma_record_keeps_order(v: SourcesView, d: DescriptorView)
    requires
        v.crates.no_duplicates(),
        v.git.no_duplicates(),
    ensures
        record(v, d).crates.subrange(0, v.crates.len() as int) == v.crates,
        record(v, d).git.subrange(0, v.git.len() as int) == v.git,
        record(v, d).paths.subrange(0, v.paths.len() as int) == v.paths,
        record(v, d).crates.no_duplicates(),
        record(v, d).git.no_duplicates(),
{
    let r = record(v, d);
    assert(r.crates.subrange(0, v.crates.len() as int) =~= v.crates);
    assert(r.git.subrange(0, v.git.len() as int) =~= v.git);
    assert(r.paths.subrange(0, v.paths.len() as int) =~= v.paths);
    match d {
        DescriptorView::Crate(c) => {
            if !v.crates.contains(c) {
                assert forall|i: int, j: int|
                    0 <= i < r.crates.len() && 0 <= j < r.crates.len() && i != j implies r.crates[i]
                    != r.crates[j] by {
                    if i == v.crates.len() as int {
                        assert(v.crates[j] == r.crates[j]);
                    } else if j == v.crates.len() as int {
                        assert(v.crates[i] == r.crates[i]);
                    }
                }
            }
        },
        DescriptorView::Git(g) => {
            if !v.git.contains(g) {
                assert forall|i: int, j: int|
                    0 <= i < r.git.len() && 0 <= j < r.git.len() && i != j implies r.git[i]
                    != r.git[j] by {
                    if i == v.git.len() as int {
                        assert(v.git[j] == r.git[j]);
                    } else if j == v.git.len() as int {
                        assert(v.git[i] == r.git[i]);
                    }
                }
            }
        },
        DescriptorView::Path(_) => {},
    }
}

/// The crates and git sources collected from identifiers hold no duplicate.
pub proof fn lemma_collected_sources_distinct(ids: Seq<Seq<char>>, strategy: Strategy)
    ensures
        collected_sources(ids, strategy).crates.no_duplicates(),
        collected_sources(ids, strategy).git.no_duplicates(),
    decreases ids.len(),
{
    if ids.len() > 0 {
        lemma_collected_sources_distinct(ids.drop_last(), strategy);
        let v = collected_sources(ids.drop_last(), strategy);
        match classification(ids.last(), strategy) {
            Ok(d) => lemma_record_keeps_order(v, d),
            Err(_) => {},
        }
    }
}

/// A registry source of the default registry is named by the `crates.io`
/// alias; any other registry renders as `crate://<authority><path>`.
pub proof fn lemma_registry_alias(p: PackageIdView)
    requires
        p.kind matches Some(k) && (k is Registry || k is SparseRegistry),
        p.url is Some,
        p.version is Some,
    ensures
        p.url->0.text == default_registry_url() ==> package_id_classification(p) == Ok::<
            DescriptorView,
            crate::descriptor::ClassifyError,
        >(DescriptorView::Crate("crate://crates.io"@ + "/"@ + p.name + "/"@ + p.version->0)),
        p.url->0.text != default_registry_url() ==> package_id_classification(p) == Ok::<
            DescriptorView,
            crate::descriptor::ClassifyError,
        >(
            DescriptorView::Crate(
                "crate://"@ + p.url->0.authority + p.url->0.path + "/"@ + p.name + "/"@
                    + p.version->0,
            ),
        ),
{
}

/// A git descriptor of a structured identifier has at most one pin set.
pub proof fn lemma_structured_pins_exclusive(p: PackageIdView)
    ensures
        package_id_classification(p) matches Ok(DescriptorView::Git(g)) ==> pins_exclusive(g),
{
    match p.kind {
        Some(PackageKindView::Git(pin)) => match p.url {
            Some(u) => {
                let g = git_descriptor(u.text, pin);
                assert(pins_exclusive(g));
            },
            None => {},
        },
        _ => {},
    }
}

/// A git descriptor of a legacy identifier has only its commit set.
pub proof fn lemma_legacy_pins_commit_only(id: Seq<char>)
    ensures
        legacy_classification(id) matches Ok(DescriptorView::Git(g)) ==> g.tag is None
            && g.branch is None && g.commit is Some && pins_exclusive(g),
{
}

/// No query or fragment mark in `s`.
pub open spec fn mark_free(s: Seq<char>) -> bool {
    forall|i: int| 0 <= i < s.len() ==> !is_mark(#[trigger] s[i])
}

proof fn lemma_find_mark_from_first(s: Seq<char>, i: int, k: int)
    requires
        0 <= i <= k < s.len(),
        is_mark(s[k]),
        forall|j: int| i <= j < k ==> !is_mark(#[trigger] s[j]),
    ensures
        find_mark_from(s, i) == Some(k),
    decreases k - i,
{
    if i < k {
        lemma_find_mark_from_first(s, i + 1, k);
    }
}

proof fn lemma_find_mark_from_none(s: Seq<char>, i: int)
    requires
        0 <= i <= s.len(),
        forall|j: int| i <= j < s.len() ==> !is_mark(#[trigger] s[j]),
    ensures
        find_mark_from(s, i) is None,
    decreases s.len() - i,
{
    if i < s.len() {
        lemma_find_mark_from_none(s, i + 1);
    }
}

/// The first mark of `a + [m] + b`, with `a` mark-free, is right after `a`.
proof fn lemma_find_mark_after(a: Seq<char>, m: char, b: Seq<char>)
    requires
        mark_free(a),
        is_mark(m),
    ensures
        find_mark(a + seq![m] + b) == Some(a.len() as int),
{
    let s = a + seq![m] + b;
    assert forall|j: int| 0 <= j < a.len() implies !is_mark(#[trigger] s[j]) by {
        assert(s[j] == a[j]);
    }
    lemma_find_mark_from_first(s, 0, a.len() as int);
}

/// A legacy git source `<url>?<query>#<commit>` is pinned to its commit
/// whatever its query says: identifiers that differ only there give one git
/// source.
pub proof fn lemma_legacy_query_ignored(url: Seq<char>, query: Seq<char>, commit: Seq<char>)
    requires
        mark_free(url),
        mark_free(query),
        mark_free(commit),
    ensures
        legacy_git(url + seq!['?'] + query + seq!['#'] + commit) == Some(
            GitRepoView { url, tag: None, branch: None, commit: Some(commit) },
        ),
        legacy_git(url + seq!['#'] + commit) == Some(
            GitRepoView { url, tag: None, branch: None, commit: Some(commit) },
        ),
{
    let repo = url + seq!['?'] + query + seq!['#'] + commit;
    let tail = query + seq!['#'] + commit;
    assert(repo =~= url + seq!['?'] + tail);
    lemma_find_mark_after(url, '?', tail);
    let rest = repo.subrange(url.len() as int + 1, repo.len() as int);
    assert(rest =~= tail);
    lemma_find_mark_after(query, '#', commit);
    let rest2 = rest.subrange(query.len() as int + 1, rest.len() as int);
    assert(rest2 =~= commit);
    lemma_find_mark_from_none(commit, 0);
    assert(before_mark(rest2) == commit);
    assert(repo.subrange(0, url.len() as int) =~= url);

    let short = url + seq!['#'] + commit;
    lemma_find_mark_after(url, '#', commit);
    assert(short.subrange(url.len() as int + 1, short.len() as int) =~= commit);
    assert(short.subrange(0, url.len() as int) =~= url);
}

/// The descriptor is already held (a path never counts as held).
pub open spec fn held(v: SourcesView, d: DescriptorView) -> bool {
    match d {
        DescriptorView::Crate(c) => v.crates.contains(c),
        DescriptorView::Git(g) => v.git.contains(g),
        DescriptorView::Path(_) => false,
    }
}

proof fn lemma_insert_unique_keeps<A>(s: Seq<A>, y: A, x: A)
    requires
        s.contains(x),
    ensures
        insert_unique(s, y).contains(x),
{
    if !s.contains(y) {
        let k = choose|k: int| 0 <= k < s.len() && s[k] == x;
        assert(s.push(y)[k] == x);
    }
}

proof fn lemma_held_after_record(v: SourcesView, d: DescriptorView, e: DescriptorView)
    requires
        held(v, d) || (d == e && !(d is Path)),
    ensures
        held(record(v, e), d),
{
    if held(v, d) {
        match d {
            DescriptorView::Crate(c) => match e {
                DescriptorView::Crate(c2) => lemma_insert_unique_keeps(v.crates, c2, c),
                _ => {},
            },
            DescriptorView::Git(g) => match e {
                DescriptorView::Git(g2) => lemma_insert_unique_keeps(v.git, g2, g),
                _ => {},
            },
            DescriptorView::Path(_) => {},
        }
    } else {
        lemma_record_twice(v, d);
        match d {
            DescriptorView::Crate(c) => {
                if !v.crates.contains(c) {
                    assert(v.crates.push(c)[v.crates.len() as int] == c);
                }
            },
            DescriptorView::Git(g) => {
                if !v.git.contains(g) {
                    assert(v.git.push(g)[v.git.len() as int] == g);
                }
            },
            DescriptorView::Path(_) => {},
        }
    }
}

/// A registry or git descriptor of any identifier seen is held afterwards.
proof fn lemma_seen_is_held(ids: Seq<Seq<char>>, strategy: Strategy, k: int)
    requires
        0 <= k < ids.len(),
        classification(ids[k], strategy) matches Ok(d) && !(d is Path),
    ensures
        held(collected_sources(ids, strategy), classification(ids[k], strategy)->Ok_0),
    decreases ids.len(),
{
    let d = classification(ids[k], strategy)->Ok_0;
    let v = collected_sources(ids.drop_last(), strategy);
    if k < ids.len() - 1 {
        lemma_seen_is_held(ids.drop_last(), strategy, k);
        assert(ids.drop_last()[k] == ids[k]);
        if let Ok(e) = classification(ids.last(), strategy) {
            lemma_held_after_record(v, d, e);
        }
    } else {
        lemma_held_after_record(v, d, d);
    }
}

/// Identifiers with a miss taken out.
pub open spec fn without_misses(ids: Seq<Seq<char>>, strategy: Strategy) -> Seq<Seq<char>>
    decreases ids.len(),
{
    if ids.len() == 0 {
        ids
    } else if classification(ids.last(), strategy) is Ok {
        without_misses(ids.drop_last(), strategy).push(ids.last())
    } else {
        without_misses(ids.drop_last(), strategy)
    }
}

/// A miss is skipped: collecting with the misses taken out gives the same
/// sources.
pub proof fn lemma_misses_skipped(ids: Seq<Seq<char>>, strategy: Strategy)
    ensures
        collected_sources(without_misses(ids, strategy), strategy) == collected_sources(ids, strategy),
    decreases ids.len(),
{
    if ids.len() > 0 {
        lemma_misses_skipped(ids.drop_last(), strategy);
        if classification(ids.last(), strategy) is Ok {
            let w = without_misses(ids.drop_last(), strategy).push(ids.last());
            assert(w.drop_last() =~= without_misses(ids.drop_last(), strategy));
        }
    }
}

/// An identifier met again later in the traversal changes neither the
/// crates nor the git sources, nor their order. A repeated registry or git
/// identifier changes nothing at all; a repeated path identifier adds one
/// more path.
pub proof fn lemma_repeat_harmless(a: Seq<Seq<char>>, k: int, b: Seq<Seq<char>>, strategy: Strategy)
    requires
        0 <= k < a.len(),
    ensures
        collected_sources(a + seq![a[k]] + b, strategy).crates == collected_sources(a + b, strategy).crates,
        collected_sources(a + seq![a[k]] + b, strategy).git == collected_sources(a + b, strategy).git,
        !(classification(a[k], strategy) matches Ok(d) && d is Path) ==> collected_sources(
            a + seq![a[k]] + b,
            strategy,
        ) == collected_sources(a + b, strategy),
        (classification(a[k], strategy) matches Ok(d) && d is Path) ==> collected_sources(
            a + seq![a[k]] + b,
            strategy,
        ).paths.len() == collected_sources(a + b, strategy).paths.len() + 1,
    decreases b.len(),
{
    if b.len() == 0 {
        assert(a + seq![a[k]] + b =~= a.push(a[k]));
        assert(a + b =~= a);
        assert(a.push(a[k]).drop_last() =~= a);
        if let Ok(d) = classification(a[k], strategy) {
            let v = collected_sources(a, strategy);
            match d {
                DescriptorView::Crate(c) => {
                    lemma_seen_is_held(a, strategy, k);
                    assert(insert_unique(v.crates, c) == v.crates);
                },
                DescriptorView::Git(g) => {
                    lemma_seen_is_held(a, strategy, k);
                    assert(insert_unique(v.git, g) == v.git);
                },
                DescriptorView::Path(_) => {},
            }
        }
    } else {
        lemma_repeat_harmless(a, k, b.drop_last(), strategy);
        assert((a + seq![a[k]] + b).drop_last() =~= a + seq![a[k]] + b.drop_last());
        assert((a + b).drop_last() =~= a + b.drop_last());
        assert((a + seq![a[k]] + b).last() == b.last());
        assert((a + b).last() == b.last());
    }
}

/// An identifier that is a miss adds nothing to the sources and exactly one
/// diagnostic, which names it.
pub proof fn lemma_miss_reported(ids: Seq<Seq<char>>, x: Seq<char>, strategy: Strategy)
    requires
        classification(x, strategy) is Err,
    ensures
        collected_sources(ids.push(x), strategy) == collected_sources(ids, strategy),
        collected_diagnostics(ids.push(x), strategy) == collected_diagnostics(ids, strategy).push(
            diagnostic(x, classification(x, strategy)->Err_0),
        ),
{
    assert(ids.push(x).drop_last() =~= ids);
}

/// One diagnostic for each identifier that is a miss, none for the others.
pub proof fn lemma_one_diagnostic_per_miss(ids: Seq<Seq<char>>, strategy: Strategy)
    ensures
        collected_diagnostics(ids, strategy).len() + without_misses(ids, strategy).len() == ids.len(),
    decreases ids.len(),
{
    if ids.len() > 0 {
        lemma_one_diagnostic_per_miss(ids.drop_last(), strategy);
    }
}

/// The path descriptors of identifiers, in order, repeats kept.
pub open spec fn paths_of(ids: Seq<Seq<char>>, strategy: Strategy) -> Seq<Seq<char>>
    decreases ids.len(),
{
    if ids.len() == 0 {
        Seq::empty()
    } else {
        match classification(ids.last(), strategy) {
            Ok(DescriptorView::Path(p)) => paths_of(ids.drop_last(), strategy).push(p),
            _ => paths_of(ids.drop_last(), strategy),
        }
    }
}

/// The paths collected are the path descriptors in node order, repeats kept.
pub proof fn lemma_paths_in_order(ids: Seq<Seq<char>>, strategy: Strategy)
    ensures
        collected_sources(ids, strategy).paths == paths_of(ids, strategy),
    decreases ids.len(),
{
    if ids.len() > 0 {
        lemma_paths_in_order(ids.drop_last(), strategy);
    }
}

/// Some identifier is classified as the registry crate `c`.
pub open spec fn describes_crate(ids: Seq<Seq<char>>, strategy: Strategy, c: Seq<char>) -> bool {
    exists|k: int|
        0 <= k < ids.len() && #[trigger] classification(ids[k], strategy) == Ok::<
            DescriptorView,
            crate::descriptor::ClassifyError,
        >(DescriptorView::Crate(c))
}

/// Some identifier is classified as the git source `g`.
pub open spec fn describes_git(ids: Seq<Seq<char>>, strategy: Strategy, g: GitRepoView) -> bool {
    exists|k: int|
        0 <= k < ids.len() && #[trigger] classification(ids[k], strategy) == Ok::<
            DescriptorView,
            crate::descriptor::ClassifyError,
        >(DescriptorView::Git(g))
}

/// Collecting from a well-formed starting collection keeps what it held, in
/// place and in order, appends each registry and git descriptor not yet held
/// in order of first occurrence, holds every one of them afterwards, holds
/// nothing twice, and adds nothing that no identifier describes.
pub proof fn lemma_first_insertion_order(v: SourcesView, ids: Seq<Seq<char>>, strategy: Strategy)
    requires
        sources_wf(v),
    ensures
        sources_wf(collect_from(v, ids, strategy)),
        v.crates.len() <= collect_from(v, ids, strategy).crates.len(),
        v.git.len() <= collect_from(v, ids, strategy).git.len(),
        v.paths.len() <= collect_from(v, ids, strategy).paths.len(),
        collect_from(v, ids, strategy).crates.subrange(0, v.crates.len() as int) == v.crates,
        collect_from(v, ids, strategy).git.subrange(0, v.git.len() as int) == v.git,
        collect_from(v, ids, strategy).paths.subrange(0, v.paths.len() as int) == v.paths,
        forall|k: int|
            0 <= k < ids.len() && (#[trigger] classification(ids[k], strategy) matches Ok(d) && !(
            d is Path)) ==> held(collect_from(v, ids, strategy), classification(ids[k], strategy)->Ok_0),
        forall|j: int|
            v.crates.len() <= j < collect_from(v, ids, strategy).crates.len() ==> describes_crate(ids, strategy, #[trigger] collect_from(v, ids, strategy).crates[j]),
        forall|j: int|
            v.git.len() <= j < collect_from(v, ids, strategy).git.len() ==> describes_git(ids, strategy, #[trigger] collect_from(v, ids, strategy).git[j]),
    decreases ids.len(),
{
    if ids.len() > 0 {
        let front = ids.drop_last();
        lemma_first_insertion_order(v, front, strategy);
        let w = collect_from(v, front, strategy);
        let r = collect_from(v, ids, strategy);
        let last = ids.len() - 1;
        assert(ids[last] == ids.last());
        if let Ok(e) = classification(ids.last(), strategy) {
            lemma_record_keeps_order(w, e);
            assert(r.crates.subrange(0, v.crates.len() as int) =~= r.crates.subrange(0, w.crates.len() as int).subrange(0, v.crates.len() as int));
            assert(r.git.subrange(0, v.git.len() as int) =~= r.git.subrange(0, w.git.len() as int).subrange(0, v.git.len() as int));
            assert(r.paths.subrange(0, v.paths.len() as int) =~= r.paths.subrange(0, w.paths.len() as int).subrange(0, v.paths.len() as int));
            assert forall|k: int|
                0 <= k < ids.len() && (#[trigger] classification(ids[k], strategy) matches Ok(d) && !(
                d is Path)) implies held(r, classification(ids[k], strategy)->Ok_0) by {
                let d = classification(ids[k], strategy)->Ok_0;
                if k < last {
                    assert(front[k] == ids[k]);
                    lemma_held_after_record(w, d, e);
                } else {
                    lemma_held_after_record(w, d, d);
                }
            }
            assert forall|j: int| v.crates.len() <= j < r.crates.len() implies describes_crate(ids, strategy, r.crates[j]) by {
                if j < w.crates.len() {
                    assert(r.crates[j] == w.crates[j]) by {
                        assert(r.crates.subrange(0, w.crates.len() as int)[j] == r.crates[j]);
                    }
assert(describes_crate(front, strategy, w.crates[j]));
                    let k = choose|k: int|
                        0 <= k < front.len() && #[trigger] classification(front[k], strategy) == Ok::<
                    DescriptorView,
                    crate::descriptor::ClassifyError,
                >(DescriptorView::Crate(w.crates[j]));
                    assert(front[k] == ids[k]);
                } else {
                    assert(classification(ids[last], strategy) == Ok::<
                    DescriptorView,
                    crate::descriptor::ClassifyError,
                >(DescriptorView::Crate(r.crates[j])));
                }
            }
            assert forall|j: int| v.git.len() <= j < r.git.len() implies describes_git(ids, strategy, r.git[j]) by {
                if j < w.git.len() {
                    assert(r.git[j] == w.git[j]) by {
                        assert(r.git.subrange(0, w.git.len() as int)[j] == r.git[j]);
                    }
assert(describes_git(front, strategy, w.git[j]));
                    let k = choose|k: int|
                        0 <= k < front.len() && #[trigger] classification(front[k], strategy) == Ok::<
                    DescriptorView,
                    crate::descriptor::ClassifyError,
                >(DescriptorView::Git(w.git[j]));
                    assert(front[k] == ids[k]);
                } else {
                    assert(classification(ids[last], strategy) == Ok::<
                    DescriptorView,
                    crate::descriptor::ClassifyError,
                >(DescriptorView::Git(r.git[j])));
                }
            }
        } else {
            assert forall|k: int|
                0 <= k < ids.len() && (#[trigger] classification(ids[k], strategy) matches Ok(d) && !(
                d is Path)) implies held(r, classification(ids[k], strategy)->Ok_0) by {
                assert(k < last);
                assert(front[k] == ids[k]);
            }
            assert forall|j: int| v.crates.len() <= j < r.crates.len() implies describes_crate(ids, strategy, r.crates[j]) by {
                assert(describes_crate(front, strategy, w.crates[j]));
                    let k = choose|k: int|
                        0 <= k < front.len() && #[trigger] classification(front[k], strategy) == Ok::<
                    DescriptorView,
                    crate::descriptor::ClassifyError,
                >(DescriptorView::Crate(w.crates[j]));
                    assert(front[k] == ids[k]);
            }
            assert forall|j: int| v.git.len() <= j < r.git.len() implies describes_git(ids, strategy, r.git[j]) by {
                assert(describes_git(front, strategy, w.git[j]));
                    let k = choose|k: int|
                        0 <= k < front.len() && #[trigger] classification(front[k], strategy) == Ok::<
                    DescriptorView,
                    crate::descriptor::ClassifyError,
                >(DescriptorView::Git(w.git[j]));
                    assert(front[k] == ids[k]);
            }
        }
    }
}

} // verus!
