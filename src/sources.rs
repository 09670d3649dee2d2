//! The collected sources of a dependency graph: registry crates and git
//! repositories as insertion-ordered sets, local paths as a plain sequence.
use crate::descriptor::{error_message, result_view, ClassifyError, Descriptor, DescriptorView, GitRepo, GitRepoView};
use crate::legacy::{classify_legacy, legacy_classification};
use crate::package_id::{classify_structured, structured_classification};
use vstd::prelude::*;
use vstd::string::*;

verus! {

#[verifier::external_type_specification]
#[verifier::external_body]
#[verifier::reject_recursive_types(T)]
#[verifier::reject_recursive_types(S)]
pub struct ExIndexSet<T, S>(indexmap::IndexSet<T, S>);

/// The strings an `IndexSet<String>` holds, in insertion order.
pub uninterp spec fn crate_set_items(s: indexmap::IndexSet<String>) -> Seq<Seq<char>>;

/// The git sources an `IndexSet` of (url, tag, branch, commit) holds, in
/// insertion order.
pub uninterp spec fn git_set_items(
    s: indexmap::IndexSet<(String, Option<String>, Option<String>, Option<String>)>,
) -> Seq<GitRepoView>;

/// Relies on `IndexSet::new`: the set starts empty.
#[verifier::external_body]
fn new_crate_set() -> (r: indexmap::IndexSet<String>)
    ensures
        crate_set_items(r) == Seq::<Seq<char>>::empty(),
{
    indexmap::IndexSet::new()
}

/// Relies on `IndexSet::insert`: a value equal to one already held leaves the
/// set and its order as they are; any other value is appended.
#[verifier::external_body]
fn crate_set_insert(s: &mut indexmap::IndexSet<String>, x: String) -> (r: bool)
    ensures
        crate_set_items(*final(s)) == insert_unique(crate_set_items(*old(s)), x@),
        r == !crate_set_items(*old(s)).contains(x@),
{
    s.insert(x)
}

/// Relies on `IndexSet::iter`: the values in insertion order.
#[verifier::external_body]
fn crate_set_values(s: &indexmap::IndexSet<String>) -> (r: Vec<String>)
    ensures
        r@.len() == crate_set_items(*s).len(),
        forall|i: int| 0 <= i < r@.len() ==> #[trigger] r@[i]@ == crate_set_items(*s)[i],
{
    s.iter().cloned().collect()
}

/// Relies on `IndexSet::new`: the set starts empty.
#[verifier::external_body]
fn new_git_set() -> (r: indexmap::IndexSet<(String, Option<String>, Option<String>, Option<String>)>)
    ensures
        git_set_items(r) == Seq::<GitRepoView>::empty(),
{
    indexmap::IndexSet::new()
}

/// Relies on `IndexSet::insert`, keyed by the tuple (url, tag, branch, commit)
/// whose equality is that of its fields: a source equal to one already held
/// leaves the set and its order as they are; any other is appended.
#[verifier::external_body]
fn git_set_insert(
    s: &mut indexmap::IndexSet<(String, Option<String>, Option<String>, Option<String>)>,
    g: GitRepo,
) -> (r: bool)
    ensures
        git_set_items(*final(s)) == insert_unique(git_set_items(*old(s)), g@),
        r == !git_set_items(*old(s)).contains(g@),
{
    s.insert((g.url, g.tag, g.branch, g.commit))
}

/// Relies on `IndexSet::iter`: the values in insertion order.
#[verifier::external_body]
fn git_set_values(
    s: &indexmap::IndexSet<(String, Option<String>, Option<String>, Option<String>)>,
) -> (r: Vec<GitRepo>)
    ensures
        r@.len() == git_set_items(*s).len(),
        forall|i: int| 0 <= i < r@.len() ==> #[trigger] r@[i]@ == git_set_items(*s)[i],
{
    s.iter().map(
        |(u, t, b, c)| GitRepo { url: u.clone(), tag: t.clone(), branch: b.clone(), commit: c.clone() },
    ).collect()
}

/// `s` with `x` appended, unless it already holds `x`.
pub open spec fn insert_unique<A>(s: Seq<A>, x: A) -> Seq<A> {
    if s.contains(x) {
        s
    } else {
        s.push(x)
    }
}

/// Which of the two identifier forms is read.
#[derive(Clone, Copy, Debug, PartialEq, Eq, Structural)]
pub enum Strategy {
    /// Package ID specs with scheme, kind, query and fragment.
    Structured,
    /// `<name> <version> (<kind>+<url>)`.
    Legacy,
}

/// Metadata tools from version 1.77 on write structured identifiers.
pub open spec fn strategy_for(major: u64, minor: u64) -> Strategy {
    if major > 1 || (major == 1 && minor >= 77) {
        Strategy::Structured
    } else {
        Strategy::Legacy
    }
}

impl Strategy {
    /// The strategy for identifiers written by a metadata tool of the given version.
    pub fn for_tool_version(major: u64, minor: u64) -> (r: Strategy)
        ensures
            r == strategy_for(major, minor),
    {
        if major > 1 || (major == 1 && minor >= 77) {
            Strategy::Structured
        } else {
            Strategy::Legacy
        }
    }
}

/// How an identifier is classified under a strategy.
pub open spec fn classification(id: Seq<char>, strategy: Strategy) -> Result<DescriptorView, ClassifyError> {
    match strategy {
        Strategy::Legacy => legacy_classification(id),
        Strategy::Structured => structured_classification(id),
    }
}

/// Classifies one identifier under a strategy.
pub fn classify(id: &str, strategy: Strategy) -> (r: Result<Descriptor, ClassifyError>)
    ensures
        result_view(r) == classification(id@, strategy),
{
    match strategy {
        Strategy::Legacy => classify_legacy(id),
        Strategy::Structured => classify_structured(id),
    }
}

/// The view of `Sources`: crates and git sources in first-insertion order,
/// paths in the order they were added.
pub struct SourcesView {
    pub crates: Seq<Seq<char>>,
    pub git: Seq<GitRepoView>,
    pub paths: Seq<Seq<char>>,
}

/// The empty collection.
pub open spec fn no_sources() -> SourcesView {
    SourcesView { crates: Seq::empty(), git: Seq::empty(), paths: Seq::empty() }
}

/// The collection after one more descriptor: crates and git sources are
/// added unless already held, paths are always appended.
pub open spec fn record(v: SourcesView, d: DescriptorView) -> SourcesView {
    match d {
        DescriptorView::Crate(c) => SourcesView { crates: insert_unique(v.crates, c), git: v.git, paths: v.paths },
        DescriptorView::Git(g) => SourcesView { crates: v.crates, git: insert_unique(v.git, g), paths: v.paths },
        DescriptorView::Path(p) => SourcesView { crates: v.crates, git: v.git, paths: v.paths.push(p) },
    }
}

/// Crates and git sources are each held at most once.
pub open spec fn sources_wf(v: SourcesView) -> bool {
    v.crates.no_duplicates() && v.git.no_duplicates()
}

/// The collection after one more classification result: a failure leaves
/// it as it is.
pub open spec fn record_result(v: SourcesView, r: Result<DescriptorView, ClassifyError>) -> SourcesView {
    match r {
        Ok(d) => record(v, d),
        Err(_) => v,
    }
}

/// The sources after collecting from identifiers in order, starting from `v`.
pub open spec fn collect_from(v: SourcesView, ids: Seq<Seq<char>>, strategy: Strategy) -> SourcesView
    decreases ids.len(),
{
    if ids.len() == 0 {
        v
    } else {
        record_result(collect_from(v, ids.drop_last(), strategy), classification(ids.last(), strategy))
    }
}

/// The sources collected from identifiers, in order, starting from none.
pub open spec fn collected_sources(ids: Seq<Seq<char>>, strategy: Strategy) -> SourcesView {
    collect_from(no_sources(), ids, strategy)
}

/// The diagnostic line for an identifier that could not be classified.
pub open spec fn diagnostic(id: Seq<char>, e: ClassifyError) -> Seq<char> {
    "[not handled] "@ + id + ": "@ + error_message(e)
}

/// The diagnostics of a sequence of identifiers, one per failure, in order.
pub open spec fn collected_diagnostics(ids: Seq<Seq<char>>, strategy: Strategy) -> Seq<Seq<char>>
    decreases ids.len(),
{
    if ids.len() == 0 {
        Seq::empty()
    } else {
        let d = collected_diagnostics(ids.drop_last(), strategy);
        match classification(ids.last(), strategy) {
            Ok(_) => d,
            Err(e) => d.push(diagnostic(ids.last(), e)),
        }
    }
}

/// The registry crates, git repositories and local paths of a dependency graph.
pub struct Sources {
    crates: indexmap::IndexSet<String>,
    git: indexmap::IndexSet<(String, Option<String>, Option<String>, Option<String>)>,
    paths: Vec<String>,
}

impl View for Sources {
    type V = SourcesView;

    closed spec fn view(&self) -> SourcesView {
        SourcesView {
            crates: crate_set_items(self.crates),
            git: git_set_items(self.git),
            paths: self.paths@.map_values(|p: String| p@),
        }
    }
}

/// The diagnostic line for an identifier that could not be classified.
pub fn diagnostic_line(id: &str, e: ClassifyError) -> (r: String)
    ensures
        r@ == diagnostic(id@, e),
{
    let mut r = String::from_str("[not handled] ");
    r.append(id);
    r.append(": ");
    r.append(e.message().as_str());
    r
}

impl Sources {
    /// An empty collection.
    pub fn new() -> (r: Sources)
        ensures
            r@ == no_sources(),
            sources_wf(r@),
    {
        let r = Sources { crates: new_crate_set(), git: new_git_set(), paths: Vec::new() };
        assert(r@.paths =~= Seq::<Seq<char>>::empty());
        r
    }

    /// Adds one descriptor.
    pub fn add(&mut self, d: Descriptor)
        ensures
            final(self)@ == record(old(self)@, d@),
            sources_wf(old(self)@) ==> sources_wf(final(self)@),
    {
        proof {
            if sources_wf(self@) {
                crate::laws::lemma_record_keeps_order(self@, d@);
            }
        }
        match d {
            Descriptor::Crate(c) => {
                crate_set_insert(&mut self.crates, c);
            },
            Descriptor::Git(g) => {
                git_set_insert(&mut self.git, g);
            },
            Descriptor::Path(p) => {
                let ghost before = self.paths@;
                self.paths.push(p);
                assert(self.paths@.map_values(|p: String| p@) =~= before.map_values(
                    |p: String| p@,
                ).push(p@));
            },
        }
    }

    /// Classifies one identifier and adds what it describes; a failure
    /// leaves the collection as it is.
    pub fn register(&mut self, id: &str, strategy: Strategy) -> (r: Result<(), ClassifyError>)
        ensures
            final(self)@ == record_result(old(self)@, classification(id@, strategy)),
            r is Ok <==> classification(id@, strategy) is Ok,
            r matches Err(e) ==> classification(id@, strategy) == Err::<DescriptorView, ClassifyError>(e),
            sources_wf(old(self)@) ==> sources_wf(final(self)@),
    {
        match classify(id, strategy) {
            Ok(d) => {
                self.add(d);
                Ok(())
            },
            Err(e) => Err(e),
        }
    }

    /// The registry crates, in first-insertion order.
    pub fn crates(&self) -> (r: Vec<String>)
        ensures
            r@.len() == self@.crates.len(),
            forall|i: int| 0 <= i < r@.len() ==> #[trigger] r@[i]@ == self@.crates[i],
    {
        crate_set_values(&self.crates)
    }

    /// The git repositories, in first-insertion order.
    pub fn git_repos(&self) -> (r: Vec<GitRepo>)
        ensures
            r@.len() == self@.git.len(),
            forall|i: int| 0 <= i < r@.len() ==> #[trigger] r@[i]@ == self@.git[i],
    {
        git_set_values(&self.git)
    }

    /// The local paths, in the order they were added.
    pub fn paths(&self) -> (r: Vec<String>)
        ensures
            r@.len() == self@.paths.len(),
            forall|i: int| 0 <= i < r@.len() ==> #[trigger] r@[i]@ == self@.paths[i],
    {
        self.paths.clone()
    }
}

/// Classifies every identifier in order and collects the sources; each one
/// that cannot be classified gives one diagnostic line and is skipped.
pub fn collect_sources(ids: &Vec<String>, strategy: Strategy) -> (r: (Sources, Vec<String>))
    ensures
        sources_wf(r.0@),
        r.0@ == collected_sources(ids@.map_values(|s: String| s@), strategy),
        r.1@.map_values(|s: String| s@) == collected_diagnostics(ids@.map_values(|s: String| s@), strategy),
{
    let mut sources = Sources::new();
    let diagnostics = sources.register_all(ids, strategy);
    (sources, diagnostics)
}

impl Sources {
    /// Classifies every identifier in order and adds what each describes to
    /// these sources; each one that cannot be classified gives one diagnostic
    /// line and is skipped.
    pub fn register_all(&mut self, ids: &Vec<String>, strategy: Strategy) -> (r: Vec<String>)
        ensures
            final(self)@ == collect_from(old(self)@, ids@.map_values(|s: String| s@), strategy),
            r@.map_values(|s: String| s@) == collected_diagnostics(ids@.map_values(|s: String| s@), strategy),
            sources_wf(old(self)@) ==> sources_wf(final(self)@),
    {
        let ghost all = ids@.map_values(|s: String| s@);
        let ghost start = self@;
        let mut diagnostics: Vec<String> = Vec::new();
        let mut i: usize = 0;
        while i < ids.len()
            invariant
                i <= ids@.len(),
                all == ids@.map_values(|s: String| s@),
                sources_wf(start) ==> sources_wf(self@),
                self@ == collect_from(start, all.subrange(0, i as int), strategy),
                diagnostics@.map_values(|s: String| s@) == collected_diagnostics(all.subrange(0, i as int), strategy),
            decreases ids@.len() - i,
        {
            let ghost prefix = all.subrange(0, i + 1);
            assert(prefix.drop_last() =~= all.subrange(0, i as int));
            assert(prefix.last() == ids@[i as int]@);
            let ghost before = diagnostics@;
            match self.register(ids[i].as_str(), strategy) {
                Ok(()) => {},
                Err(e) => {
                    diagnostics.push(diagnostic_line(ids[i].as_str(), e));
                    assert(diagnostics@.map_values(|s: String| s@) =~= before.map_values(
                        |s: String| s@,
                    ).push(diagnostic(ids@[i as int]@, e)));
                },
            }
            i += 1;
        }
        assert(all.subrange(0, ids@.len() as int) =~= all);
        diagnostics
    }
}

} // verus!
