//! The traversal: a depth-first walk over the imports of a project, driven
//! by the caller one file at a time.
//!
//! `Scanner::scan` starts a walk at an entry file. The walk then names the
//! file to read next (`ScanState::pending`); the caller reads and parses it,
//! resolves each import specifier (`None` where resolution fails), and hands
//! the result to `Scanner::next`. The walk records the file, records one edge
//! per resolved import that no exclusion pattern matches, and goes on to the
//! first target not visited yet, returning to the importing file afterwards,
//! exactly as a recursive descent would. When nothing is pending the walk is
//! complete and its `Container` holds the graph.
use vstd::prelude::*;
use crate::container::{inclusion_texts, texts, Container, ContainerView, EdgeText};
use crate::pattern::{any_matches, clone_patterns, matches_any, pattern_texts, GlobPattern};

verus! {

/// The pattern that excludes installed packages by default.
pub const DEFAULT_EXCLUSION: &'static str = "*node_modules/*";

/// The pattern roles of a scan.
pub struct ScannerOptions {
    /// Exclusion patterns: an import target that matches one is not entered.
    pub filter: Vec<GlobPattern>,
    /// Inclusion patterns, applied only when the result is exported.
    pub includes: Option<Vec<GlobPattern>>,
}

impl Default for ScannerOptions {
    /// Excludes installed packages (where glob accepts the default pattern)
    /// and has no inclusion patterns.
    fn default() -> (r: ScannerOptions)
        ensures
            glob_accepts_default() ==> pattern_texts(r.filter@) == seq![DEFAULT_EXCLUSION@],
            !glob_accepts_default() ==> r.filter@.len() == 0,
            r.includes is None,
    {
        let mut filter: Vec<GlobPattern> = Vec::new();
        match GlobPattern::new(DEFAULT_EXCLUSION) {
            Ok(p) => {
                filter.push(p);
                assert(pattern_texts(filter@) =~= seq![DEFAULT_EXCLUSION@]);
            },
            Err(_) => {},
        }
        ScannerOptions { filter, includes: None }
    }
}

/// Whether glob accepts the default exclusion pattern.
pub open spec fn glob_accepts_default() -> bool {
    crate::pattern::glob_accepts(DEFAULT_EXCLUSION@)
}

/// A scanner's configuration: the project root, for the caller's resolver,
/// and the two pattern roles.
pub struct Scanner {
    root: String,
    options: ScannerOptions,
}

/// A scanner's configuration as text.
pub struct ScannerView {
    pub root: Seq<char>,
    pub exclusions: Seq<Seq<char>>,
    pub inclusions: Option<Seq<Seq<char>>>,
}

impl View for Scanner {
    type V = ScannerView;

    closed spec fn view(&self) -> ScannerView {
        ScannerView {
            root: self.root@,
            exclusions: pattern_texts(self.options.filter@),
            inclusions: inclusion_texts(self.options.includes),
        }
    }
}

/// A file being walked: its path and the targets still to follow.
pub type FrameText = (Seq<char>, Seq<Seq<char>>);

/// A walk as text.
pub struct WalkView {
    /// The files visited, in the order of their first visit.
    pub nodes: Seq<Seq<char>>,
    /// The import edges recorded, in order.
    pub edges: Seq<EdgeText>,
    /// The files whose imports are being followed, the innermost last.
    pub stack: Seq<FrameText>,
    /// The file the caller is to read next; none once the walk is complete.
    pub pending: Option<Seq<char>>,
    /// The exclusion patterns, fixed when the walk started.
    pub exclusions: Seq<Seq<char>>,
    /// The inclusion patterns handed on to the result.
    pub inclusions: Option<Seq<Seq<char>>>,
}

/// The resolved imports that the walk follows, in order: those that resolved
/// and that no exclusion pattern matches.
pub open spec fn kept(imports: Seq<Option<Seq<char>>>, exclusions: Seq<Seq<char>>) -> Seq<Seq<char>>
    decreases imports.len(),
{
    if imports.len() == 0 {
        Seq::empty()
    } else {
        let rest = kept(imports.drop_last(), exclusions);
        match imports.last() {
            Some(t) => if matches_any(exclusions, t) { rest } else { rest.push(t) },
            None => rest,
        }
    }
}

/// How many targets the innermost file still has.
pub open spec fn top_left(w: WalkView) -> nat {
    if w.stack.len() > 0 { w.stack.last().1.len() } else { 0 }
}

/// Follows targets until one names a file not visited yet, which becomes
/// pending, or until no file has targets left. Each target followed adds an
/// edge; a file with no targets left is done.
pub open spec fn advance(w: WalkView) -> WalkView
    decreases w.stack.len(), top_left(w),
{
    if w.stack.len() == 0 {
        w
    } else {
        let top = w.stack.last();
        if top.1.len() == 0 {
            advance(WalkView { stack: w.stack.drop_last(), ..w })
        } else {
            let t = top.1[0];
            let w2 = WalkView {
                edges: w.edges.push((top.0, t)),
                stack: w.stack.update(w.stack.len() - 1, (top.0, top.1.drop_first())),
                ..w
            };
            if w.nodes.contains(t) {
                advance(w2)
            } else {
                WalkView { pending: Some(t), ..w2 }
            }
        }
    }
}

/// A walk after the caller reports the imports of the pending file: the file
/// is visited, its kept imports are to be followed, and the walk advances.
/// With nothing pending the walk is unchanged.
pub open spec fn visited(w: WalkView, imports: Seq<Option<Seq<char>>>) -> WalkView {
    match w.pending {
        Some(p) => advance(WalkView {
            nodes: w.nodes.push(p),
            stack: w.stack.push((p, kept(imports, w.exclusions))),
            pending: None,
            ..w
        }),
        None => w,
    }
}

/// The walk that a scan from `entry` starts with: nothing visited, the entry
/// pending.
pub open spec fn started(
    entry: Seq<char>,
    exclusions: Seq<Seq<char>>,
    inclusions: Option<Seq<Seq<char>>>,
) -> WalkView {
    WalkView {
        nodes: Seq::empty(),
        edges: Seq::empty(),
        stack: Seq::empty(),
        pending: Some(entry),
        exclusions,
        inclusions,
    }
}

/// The import texts handed to `next`.
pub open spec fn import_texts(imports: Seq<Option<String>>) -> Seq<Option<Seq<char>>> {
    imports.map_values(|o: Option<String>| match o {
        Some(s) => Some(s@),
        None => None,
    })
}

/// A frame of a consistent walk: its file is visited and none of its
/// targets matches an exclusion pattern.
pub open spec fn frame_ok(w: WalkView, f: FrameText) -> bool {
    &&& w.nodes.contains(f.0)
    &&& forall|j: int| 0 <= j < f.1.len() ==> !matches_any(w.exclusions, #[trigger] f.1[j])
}

/// An edge of a consistent walk: it starts at a visited file and ends at a
/// visited or the pending file that no exclusion pattern matches.
pub open spec fn edge_ok(w: WalkView, e: EdgeText) -> bool {
    &&& w.nodes.contains(e.0)
    &&& !matches_any(w.exclusions, e.1)
    &&& (w.nodes.contains(e.1) || w.pending == Some(e.1))
}

/// What holds of every walk: no file is visited twice; the pending file is
/// not visited yet; no file but the entry, and no edge target, matches an
/// exclusion pattern; every edge starts at a visited file and ends at a
/// visited or the pending file.
pub open spec fn walk_wf(w: WalkView) -> bool {
    &&& w.nodes.no_duplicates()
    &&& (w.pending matches Some(p) ==> !w.nodes.contains(p))
    &&& (w.pending matches Some(p) ==> w.nodes.len() > 0 ==> !matches_any(w.exclusions, p))
    &&& forall|i: int| 0 < i < w.nodes.len() ==> !matches_any(w.exclusions, #[trigger] w.nodes[i])
    &&& forall|i: int| 0 <= i < w.edges.len() ==> edge_ok(w, #[trigger] w.edges[i])
    &&& forall|i: int| 0 <= i < w.stack.len() ==> frame_ok(w, #[trigger] w.stack[i])
}

/// A file being walked.
struct Frame {
    file: String,
    targets: Vec<String>,
    next: usize,
}

spec fn frame_text(f: Frame) -> FrameText {
    (f.file@, texts(f.targets@).subrange(f.next as int, f.targets.len() as int))
}

/// A scan in progress, or complete.
pub struct ScanState {
    container: Container,
    stack: Vec<Frame>,
    pending: Option<String>,
    exclusions: Vec<GlobPattern>,
}

impl View for ScanState {
    type V = WalkView;

    closed spec fn view(&self) -> WalkView {
        WalkView {
            nodes: self.container@.nodes,
            edges: self.container@.edges,
            stack: self.stack@.map_values(|f: Frame| frame_text(f)),
            pending: match self.pending {
                Some(p) => Some(p@),
                None => None,
            },
            exclusions: pattern_texts(self.exclusions@),
            inclusions: self.container@.inclusions,
        }
    }
}

impl ScanState {
    /// The walk invariant holds of a consistent scan.
    pub proof fn lemma_wf_walk(&self)
        requires
            self.wf(),
        ensures
            walk_wf(self@),
    {
    }

    /// The walk is consistent: each frame's position lies within its targets
    /// and the walk invariant holds.
    pub closed spec fn wf(&self) -> bool {
        &&& forall|i: int| 0 <= i < self.stack.len() ==> (#[trigger] self.stack@[i]).next <= self.stack@[i].targets.len()
        &&& walk_wf(self@)
    }

    /// The file the caller is to read next, if the scan is not complete.
    pub fn pending(&self) -> (r: Option<String>)
        ensures
            r matches Some(p) ==> self@.pending == Some(p@),
            r is None ==> self@.pending is None,
    {
        match &self.pending {
            Some(p) => Some(p.clone()),
            None => None,
        }
    }

    /// Whether the scan is complete.
    pub fn is_complete(&self) -> (r: bool)
        ensures
            r == self@.pending is None,
    {
        self.pending.is_none()
    }

    /// The graph found so far.
    pub fn container(&self) -> (r: &Container)
        ensures
            r@ == (ContainerView {
                nodes: self@.nodes,
                edges: self@.edges,
                inclusions: self@.inclusions,
            }),
    {
        &self.container
    }

    /// The graph found, handed over.
    pub fn into_container(self) -> (r: Container)
        ensures
            r@ == (ContainerView {
                nodes: self@.nodes,
                edges: self@.edges,
                inclusions: self@.inclusions,
            }),
    {
        self.container
    }
}

/// No target that a walk follows matches an exclusion pattern.
pub proof fn lemma_kept_not_excluded(imports: Seq<Option<Seq<char>>>, exclusions: Seq<Seq<char>>)
    ensures
        forall|j: int| 0 <= j < kept(imports, exclusions).len()
            ==> !matches_any(exclusions, #[trigger] kept(imports, exclusions)[j]),
    decreases imports.len(),
{
    if imports.len() > 0 {
        let rest = kept(imports.drop_last(), exclusions);
        lemma_kept_not_excluded(imports.drop_last(), exclusions);
        assert forall|j: int| 0 <= j < kept(imports, exclusions).len()
            implies !matches_any(exclusions, #[trigger] kept(imports, exclusions)[j]) by {
            if j < rest.len() {
                assert(kept(imports, exclusions)[j] == rest[j]);
            }
        }
    }
}

impl ScanState {
    /// The kept targets of the pending file, in order.
    fn kept_targets(&self, imports: &Vec<Option<String>>) -> (r: Vec<String>)
        ensures
            texts(r@) == kept(import_texts(imports@), self@.exclusions),
    {
        let ghost all = import_texts(imports@);
        let ghost excl = self@.exclusions;
        let mut r: Vec<String> = Vec::new();
        let mut i: usize = 0;
        assert(all.subrange(0, 0) =~= Seq::<Option<Seq<char>>>::empty());
        assert(texts(r@) =~= Seq::<Seq<char>>::empty());
        while i < imports.len()
            invariant
                i <= imports.len(),
                all == import_texts(imports@),
                excl == self@.exclusions,
                texts(r@) == kept(all.subrange(0, i as int), excl),
            decreases imports.len() - i,
        {
            let ghost before = r@;
            assert(all.subrange(0, i + 1).drop_last() =~= all.subrange(0, i as int));
            match &imports[i] {
                Some(t) => {
                    if !any_matches(&self.exclusions, t.as_str()) {
                        r.push(t.clone());
                        assert(texts(r@) =~= texts(before).push(t@));
                    }
                },
                None => {},
            }
            i = i + 1;
        }
        assert(all.subrange(0, imports.len() as int) =~= all);
        r
    }

    /// Follows targets as `advance` says.
    fn advance_walk(&mut self)
        requires
            old(self).wf(),
            old(self)@.pending is None,
        ensures
            final(self).wf(),
            final(self)@ == advance(old(self)@),
    {
        let ghost goal = advance(self@);
        while self.pending.is_none() && self.stack.len() > 0
            invariant
                self.wf(),
                self@.pending is None ==> advance(self@) == goal,
                self@.pending is Some ==> self@ == goal,
            decreases self@.stack.len(), top_left(self@),
        {
            let ghost w = self@;
            let ghost st = self.stack@;
            let mut frame = self.stack.pop().unwrap();
            proof {
                assert(self.stack@.map_values(|f: Frame| frame_text(f)) =~= w.stack.drop_last());
                assert(frame_text(frame) == w.stack.last());
            }
            if frame.next >= frame.targets.len() {
                proof {
                    assert(self@ == (WalkView { stack: w.stack.drop_last(), ..w }));
                    assert forall|i: int| 0 <= i < self@.stack.len() implies frame_ok(self@, #[trigger] self@.stack[i]) by {
                        assert(self@.stack[i] == w.stack[i]);
                    }
                }
            } else {
                let t = frame.targets[frame.next].clone();
                let f = frame.file.clone();
                proof {
                    assert(t@ == w.stack.last().1[0]);
                }
                frame.next = frame.next + 1;
                let ghost nf = frame;
                self.stack.push(frame);
                self.container.record_edge(f, t.clone());
                proof {
                    let top = w.stack.last();
                    assert(frame_text(nf) =~= (top.0, top.1.drop_first()));
                    assert(self@.stack =~= w.stack.update(w.stack.len() - 1, (top.0, top.1.drop_first())));
                    assert(frame_ok(w, top));
                    assert(!matches_any(w.exclusions, top.1[0]));
                    assert forall|i: int| 0 <= i < self@.stack.len() implies frame_ok(self@, #[trigger] self@.stack[i]) by {
                        if i < self@.stack.len() - 1 {
                            assert(self@.stack[i] == w.stack[i]);
                        } else {
                            assert(frame_ok(w, w.stack[i]));
                            assert forall|j: int| 0 <= j < self@.stack[i].1.len() implies !matches_any(w.exclusions, #[trigger] self@.stack[i].1[j]) by {
                                assert(self@.stack[i].1[j] == top.1[j + 1]);
                            }
                        }
                    }
                    assert forall|i: int| 0 <= i < self.stack.len() implies (#[trigger] self.stack@[i]).next <= self.stack@[i].targets.len() by {
                        if i < self.stack.len() - 1 {
                            assert(self.stack@[i] == st[i]);
                        }
                    }
                }
                if !self.container.contains_node(&t) {
                    self.pending = Some(t);
                }
                proof {
                    assert forall|i: int| 0 <= i < self@.edges.len() implies edge_ok(self@, #[trigger] self@.edges[i]) by {
                        if i < w.edges.len() {
                            assert(self@.edges[i] == w.edges[i]);
                            assert(edge_ok(w, w.edges[i]));
                        }
                    }
                    assert forall|i: int| 0 <= i < self@.stack.len() implies frame_ok(self@, #[trigger] self@.stack[i]) by {
                        assert(frame_ok(self@, self@.stack[i]));
                    }
                }
            }
        }
        proof {
            if self@.pending is None {
                assert(advance(self@) == self@);
            }
        }
    }
}

impl ScanState {
    /// Records the pending file with the imports the caller found in it,
    /// then advances.
    fn visit(&mut self, imports: Vec<Option<String>>)
        requires
            old(self).wf(),
        ensures
            final(self).wf(),
            final(self)@ == visited(old(self)@, import_texts(imports@)),
    {
        let ghost w = self@;
        let p = match &self.pending {
            Some(p) => p.clone(),
            None => {
                return;
            },
        };
        let targets = self.kept_targets(&imports);
        proof {
            lemma_kept_not_excluded(import_texts(imports@), w.exclusions);
        }
        self.pending = None;
        self.container.record_node(p.clone());
        let ghost nf = Frame { file: p, targets, next: 0 };
        self.stack.push(Frame { file: p, targets, next: 0 });
        proof {
            let nodes = w.nodes.push(p@);
            assert(frame_text(nf) =~= (p@, kept(import_texts(imports@), w.exclusions)));
            assert(self@.stack =~= w.stack.push((p@, kept(import_texts(imports@), w.exclusions))));
            assert(self@ == (WalkView {
                nodes,
                stack: w.stack.push((p@, kept(import_texts(imports@), w.exclusions))),
                pending: None,
                ..w
            }));
            assert forall|x: Seq<char>| w.nodes.contains(x) implies nodes.contains(x) by {
                let k = choose|k: int| 0 <= k < w.nodes.len() && w.nodes[k] == x;
                assert(nodes[k] == x);
            }
            assert(nodes[w.nodes.len() as int] == p@);
            assert forall|i: int| 0 < i < nodes.len() implies !matches_any(w.exclusions, #[trigger] nodes[i]) by {
                if i < w.nodes.len() {
                    assert(nodes[i] == w.nodes[i]);
                }
            }
            assert forall|i: int| 0 <= i < self@.edges.len() implies edge_ok(self@, #[trigger] self@.edges[i]) by {
                assert(edge_ok(w, w.edges[i]));
            }
            assert forall|i: int| 0 <= i < self@.stack.len() implies frame_ok(self@, #[trigger] self@.stack[i]) by {
                if i < w.stack.len() {
                    assert(frame_ok(w, w.stack[i]));
                }
            }
            assert forall|i: int| 0 <= i < self.stack.len() implies (#[trigger] self.stack@[i]).next <= self.stack@[i].targets.len() by {
                if i < self.stack.len() - 1 {
                    assert(self.stack@[i] == old(self).stack@[i]);
                }
            }
        }
        self.advance_walk();
    }
}

impl Scanner {
    /// A scanner for the project at `root` with the given pattern roles.
    pub fn new(root: String, options: ScannerOptions) -> (r: Scanner)
        ensures
            r@ == (ScannerView {
                root: root@,
                exclusions: pattern_texts(options.filter@),
                inclusions: inclusion_texts(options.includes),
            }),
    {
        Scanner { root, options }
    }

    /// The project root, for resolving imports.
    pub fn root(&self) -> (r: &String)
        ensures
            r@ == self@.root,
    {
        &self.root
    }

    /// Replaces the exclusion patterns of later scans.
    pub fn set_filters(&mut self, filters: Vec<GlobPattern>)
        ensures
            final(self)@ == (ScannerView { exclusions: pattern_texts(filters@), ..old(self)@ }),
    {
        self.options.filter = filters;
    }

    /// Replaces the inclusion patterns of later scans.
    pub fn set_includes(&mut self, includes: Option<Vec<GlobPattern>>)
        ensures
            final(self)@ == (ScannerView { inclusions: inclusion_texts(includes), ..old(self)@ }),
    {
        self.options.includes = includes;
    }

    /// Starts a scan at `entry`, with the patterns configured now: nothing is
    /// visited yet and the entry is the file to read first.
    pub fn scan(&self, entry: &str) -> (r: ScanState)
        ensures
            r.wf(),
            r@ == started(entry@, self@.exclusions, self@.inclusions),
    {
        let includes = match &self.options.includes {
            Some(v) => Some(clone_patterns(v)),
            None => None,
        };
        let container = Container::new(includes);
        let r = ScanState {
            container,
            stack: Vec::new(),
            pending: Some(entry.to_owned()),
            exclusions: clone_patterns(&self.options.filter),
        };
        assert(r@.stack =~= Seq::<FrameText>::empty());
        r
    }

    /// Hands the walk the imports of its pending file, one entry per import
    /// specifier in source order: the resolved path, or `None` where the
    /// specifier did not resolve. The file is recorded as visited; each
    /// resolved import that no exclusion pattern matches adds an edge; the
    /// walk then names the next file to read, or completes.
    pub fn next(&self, state: &mut ScanState, imports: Vec<Option<String>>)
        requires
            old(state).wf(),
        ensures
            final(state).wf(),
            final(state)@ == visited(old(state)@, import_texts(imports@)),
    {
        state.visit(imports);
    }
}

} // verus!
