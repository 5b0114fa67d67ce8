//! Shader dependency tracker: which pipelines read which source files, and
//! which pipelines are due for recompilation.
use crate::handles::Shader;
use crate::pipeline::{uses_path, PipelineModel, UniquePipeline};
use vstd::prelude::*;

verus! {

/// The (handle, descriptor) pairs of a batch, as mathematical values.
pub open spec fn jobs_view(jobs: Seq<(Shader, UniquePipeline)>) -> Seq<(Shader, PipelineModel)> {
    jobs.map_values(|j: (Shader, UniquePipeline)| (j.0, j.1@))
}

/// The handles' descriptors, with the handles pending recompilation.
struct DependencyGraph {
    shader_to_unique: Vec<(Shader, UniquePipeline)>,
    updates: Vec<Shader>,
    model: Ghost<Map<Shader, PipelineModel>>,
}

impl DependencyGraph {
    /// The descriptor of each tracked handle.
    spec fn pipelines(&self) -> Map<Shader, PipelineModel> {
        self.model@
    }

    /// The handles pending recompilation.
    spec fn pending(&self) -> Set<Shader> {
        self.updates@.to_set()
    }

    /// The tracked handles whose descriptor reads the file at `path`.
    spec fn dependents(&self, path: Seq<char>) -> Set<Shader> {
        Set::new(|h: Shader| self.pipelines().contains_key(h) && uses_path(self.pipelines()[h], path))
    }

    spec fn wf(&self) -> bool {
        &&& forall|i: int, j: int|
            0 <= i < j < self.shader_to_unique.len() ==> #[trigger] self.shader_to_unique@[i].0
                != #[trigger] self.shader_to_unique@[j].0
        &&& forall|i: int|
            0 <= i < self.shader_to_unique.len() ==> {
                &&& self.model@.contains_key(#[trigger] self.shader_to_unique@[i].0)
                &&& self.model@[self.shader_to_unique@[i].0] == self.shader_to_unique@[i].1@
            }
        &&& forall|h: Shader|
            #[trigger] self.model@.contains_key(h) ==> exists|i: int|
                0 <= i < self.shader_to_unique.len() && #[trigger] self.shader_to_unique@[i].0 == h
        &&& self.updates@.no_duplicates()
        &&& forall|i: int|
            0 <= i < self.updates.len() ==> self.model@.contains_key(#[trigger] self.updates@[i])
    }

    /// `new` is `old` after `track_shader(handle, d)`.
    spec fn registered(old: Self, new: Self, handle: Shader, d: PipelineModel) -> bool {
        &&& new.wf()
        &&& new.pipelines() == old.pipelines().insert(handle, d)
        &&& new.pending() == old.pending().insert(handle)
    }

    /// `new` is `old` after `shader_file_touched(path)`.
    spec fn touched(old: Self, new: Self, path: Seq<char>) -> bool {
        &&& new.wf()
        &&& new.pipelines() == old.pipelines()
        &&& new.pending() == old.pending().union(old.dependents(path))
    }

    /// `new` is `old` after `updates()` returned `jobs`: each pending handle
    /// once, with its descriptor, and nothing pending any more.
    spec fn drained(old: Self, new: Self, jobs: Seq<(Shader, PipelineModel)>) -> bool {
        &&& new.wf()
        &&& new.pipelines() == old.pipelines()
        &&& new.pending() == Set::<Shader>::empty()
        &&& jobs.map_values(|j: (Shader, PipelineModel)| j.0).no_duplicates()
        &&& jobs.map_values(|j: (Shader, PipelineModel)| j.0).to_set() == old.pending()
        &&& forall|i: int|
            0 <= i < jobs.len() ==> #[trigger] jobs[i].1 == old.pipelines()[jobs[i].0]
    }

    fn new() -> (r: Self)
        ensures
            r.wf(),
            r.pipelines() == Map::<Shader, PipelineModel>::empty(),
            r.pending() == Set::<Shader>::empty(),
    {
        let r = DependencyGraph {
            shader_to_unique: Vec::new(),
            updates: Vec::new(),
            model: Ghost(Map::empty()),
        };
        proof {
            assert(r.updates@.to_set() =~= Set::<Shader>::empty());
        }
        r
    }

    fn position_of(&self, handle: Shader) -> (r: Option<usize>)
        requires
            self.wf(),
        ensures
            match r {
                Some(i) => i < self.shader_to_unique.len() && self.shader_to_unique@[i as int].0
                    == handle,
                None => !self.pipelines().contains_key(handle),
            },
    {
        let mut i: usize = 0;
        while i < self.shader_to_unique.len()
            invariant
                self.wf(),
                i <= self.shader_to_unique.len(),
                forall|j: int| 0 <= j < i ==> self.shader_to_unique@[j].0 != handle,
            decreases self.shader_to_unique.len() - i,
        {
            if self.shader_to_unique[i].0 == handle {
                return Some(i);
            }
            i = i + 1;
        }
        None
    }

    /// Marks `handle` pending unless it already is.
    fn mark_pending(&mut self, handle: Shader)
        requires
            old(self).wf(),
            old(self).pipelines().contains_key(handle),
        ensures
            final(self).wf(),
            final(self).pipelines() == old(self).pipelines(),
            final(self).shader_to_unique@ == old(self).shader_to_unique@,
            final(self).pending() == old(self).pending().insert(handle),
    {
        let mut i: usize = 0;
        while i < self.updates.len()
            invariant
                self.wf(),
                self.updates@ == old(self).updates@,
                self.shader_to_unique@ == old(self).shader_to_unique@,
                self.model@ == old(self).model@,
                i <= self.updates.len(),
                forall|j: int| 0 <= j < i ==> self.updates@[j] != handle,
            decreases self.updates.len() - i,
        {
            if self.updates[i] == handle {
                proof {
                    assert(self.updates@.to_set().contains(handle));
                    assert(self.updates@.to_set().insert(handle) =~= self.updates@.to_set());
                }
                return;
            }
            i = i + 1;
        }
        let ghost before = self.updates@;
        self.updates.push(handle);
        proof {
            assert(self.updates@ == before.push(handle));
            assert(!before.contains(handle));
            before.lemma_push_to_set_commute(handle);
            assert forall|h: Shader| #[trigger] self.model@.contains_key(h) implies exists|k: int|
                0 <= k < self.shader_to_unique.len() && #[trigger] self.shader_to_unique@[k].0 == h by {
                assert(old(self).model@.contains_key(h));
                let k = choose|k: int| 0 <= k < old(self).shader_to_unique.len() && #[trigger] old(self).shader_to_unique@[k].0 == h;
                assert(self.shader_to_unique@[k].0 == h);
            }
            assert(self.updates@.no_duplicates()) by {
                assert forall|a: int, b: int| 0 <= a < b < self.updates@.len() implies self.updates@[a] != self.updates@[b] by {
                    if b == before.len() {
                        assert(self.updates@[a] == before[a]);
                    } else {
                        assert(self.updates@[a] == before[a]);
                        assert(self.updates@[b] == before[b]);
                    }
                }
            }
            assert forall|j: int| 0 <= j < self.updates.len() implies self.model@.contains_key(#[trigger] self.updates@[j]) by {
                if j < before.len() {
                    assert(self.updates@[j] == before[j]);
                }
            }
        }
    }

    /// Records `handle` with descriptor `unique`, replacing any earlier
    /// descriptor of it, and marks it pending: a first registration always
    /// compiles. The paths are taken as given: callers pass them
    /// canonicalized, so that notifications about the same file match.
    fn track_shader(&mut self, handle: Shader, unique: UniquePipeline)
        requires
            old(self).wf(),
        ensures
            Self::registered(*old(self), *final(self), handle, unique@),
    {
        let ghost d = unique@;
        match self.position_of(handle) {
            Some(i) => {
                let ghost before = self.shader_to_unique@;
                self.shader_to_unique.set(i, (handle, unique));
                self.model = Ghost(self.model@.insert(handle, d));
                proof {
                    assert forall|j: int| 0 <= j < self.shader_to_unique.len() implies {
                        &&& self.model@.contains_key(#[trigger] self.shader_to_unique@[j].0)
                        &&& self.model@[self.shader_to_unique@[j].0] == self.shader_to_unique@[j].1@
                    } by {
                        if j != i {
                            assert(self.shader_to_unique@[j] == before[j]);
                            assert(before[j].0 != handle);
                        }
                    }
                    assert forall|h: Shader| #[trigger] self.model@.contains_key(h) implies exists|k: int|
                        0 <= k < self.shader_to_unique.len() && #[trigger] self.shader_to_unique@[k].0 == h by {
                        if h == handle {
                            assert(self.shader_to_unique@[i as int].0 == h);
                        } else {
                            let k = choose|k: int| 0 <= k < before.len() && #[trigger] before[k].0 == h;
                            assert(self.shader_to_unique@[k].0 == h);
                        }
                    }
                    assert forall|a: int, b: int| 0 <= a < b < self.shader_to_unique.len() implies
                        #[trigger] self.shader_to_unique@[a].0 != #[trigger] self.shader_to_unique@[b].0 by {
                        assert(self.shader_to_unique@[a].0 == before[a].0);
                        assert(self.shader_to_unique@[b].0 == before[b].0);
                    }
                    assert forall|j: int| 0 <= j < self.updates.len() implies self.model@.contains_key(#[trigger] self.updates@[j]) by {
                        assert(old(self).model@.contains_key(self.updates@[j]));
                    }
                }
            },
            None => {
                let ghost before = self.shader_to_unique@;
                self.shader_to_unique.push((handle, unique));
                self.model = Ghost(self.model@.insert(handle, d));
                proof {
                    assert forall|j: int| 0 <= j < self.shader_to_unique.len() implies {
                        &&& self.model@.contains_key(#[trigger] self.shader_to_unique@[j].0)
                        &&& self.model@[self.shader_to_unique@[j].0] == self.shader_to_unique@[j].1@
                    } by {
                        if j < before.len() {
                            assert(self.shader_to_unique@[j] == before[j]);
                            assert(old(self).model@.contains_key(before[j].0));
                        }
                    }
                    assert forall|h: Shader| #[trigger] self.model@.contains_key(h) implies exists|k: int|
                        0 <= k < self.shader_to_unique.len() && #[trigger] self.shader_to_unique@[k].0 == h by {
                        if h == handle {
                            assert(self.shader_to_unique@[before.len() as int].0 == h);
                        } else {
                            let k = choose|k: int| 0 <= k < before.len() && #[trigger] before[k].0 == h;
                            assert(self.shader_to_unique@[k].0 == h);
                        }
                    }
                    assert forall|a: int, b: int| 0 <= a < b < self.shader_to_unique.len() implies
                        #[trigger] self.shader_to_unique@[a].0 != #[trigger] self.shader_to_unique@[b].0 by {
                        assert(self.shader_to_unique@[a].0 == before[a].0);
                        if b < before.len() {
                            assert(self.shader_to_unique@[b].0 == before[b].0);
                        } else {
                            assert(old(self).model@.contains_key(before[a].0));
                        }
                    }
                    assert forall|j: int| 0 <= j < self.updates.len() implies self.model@.contains_key(#[trigger] self.updates@[j]) by {
                        assert(old(self).model@.contains_key(self.updates@[j]));
                    }
                }
            },
        }
        self.mark_pending(handle);
    }

    /// The handles among the first `n` entries whose descriptor reads `path`.
    spec fn matched_prefix(&self, path: Seq<char>, n: int) -> Set<Shader> {
        Set::new(
            |h: Shader|
                exists|j: int|
                    0 <= j < n && #[trigger] self.shader_to_unique@[j].0 == h && uses_path(
                        self.shader_to_unique@[j].1@,
                        path,
                    ),
        )
    }

    /// Marks pending every tracked handle whose descriptor reads the file at
    /// `path`; a path that no descriptor reads changes nothing. The path is
    /// taken as given: callers pass it canonicalized.
    fn shader_file_touched(&mut self, path: &String)
        requires
            old(self).wf(),
        ensures
            Self::touched(*old(self), *final(self), path@),
    {
        let mut i: usize = 0;
        proof {
            assert(self.matched_prefix(path@, 0) =~= Set::<Shader>::empty());
            assert(self.pending().union(Set::<Shader>::empty()) =~= self.pending());
        }
        while i < self.shader_to_unique.len()
            invariant
                self.wf(),
                self.shader_to_unique@ == old(self).shader_to_unique@,
                self.model@ == old(self).model@,
                i <= self.shader_to_unique.len(),
                self.pending() == old(self).pending().union(self.matched_prefix(path@, i as int)),
            decreases self.shader_to_unique.len() - i,
        {
            let hit = self.shader_to_unique[i].1.vertex_path == *path
                || self.shader_to_unique[i].1.fragment_path == *path;
            let h = self.shader_to_unique[i].0;
            let ghost before = self.pending();
            let ghost prev = self.matched_prefix(path@, i as int);
            if hit {
                self.mark_pending(h);
            }
            proof {
                let next = self.matched_prefix(path@, i + 1);
                if hit {
                    assert(next =~= prev.insert(h)) by {
                        assert forall|x: Shader| next.contains(x) implies prev.insert(x).contains(x) || x == h by {
                            let j = choose|j: int|
                                0 <= j < i + 1 && #[trigger] self.shader_to_unique@[j].0 == x && uses_path(
                                    self.shader_to_unique@[j].1@,
                                    path@,
                                );
                            if j < i {
                                assert(prev.contains(x));
                            }
                        }
                        assert(next.contains(h)) by {
                            assert(self.shader_to_unique@[i as int].0 == h);
                        }
                    }
                    assert(self.pending() =~= old(self).pending().union(next));
                } else {
                    assert(next =~= prev) by {
                        assert forall|x: Shader| next.contains(x) implies prev.contains(x) by {
                            let j = choose|j: int|
                                0 <= j < i + 1 && #[trigger] self.shader_to_unique@[j].0 == x && uses_path(
                                    self.shader_to_unique@[j].1@,
                                    path@,
                                );
                            assert(j != i);
                        }
                    }
                }
            }
            i = i + 1;
        }
        proof {
            let m = self.matched_prefix(path@, self.shader_to_unique.len() as int);
            assert(m =~= old(self).dependents(path@)) by {
                assert forall|x: Shader| m.contains(x) implies old(self).dependents(path@).contains(x) by {
                    let j = choose|j: int|
                        0 <= j < self.shader_to_unique.len() && #[trigger] self.shader_to_unique@[j].0 == x && uses_path(
                            self.shader_to_unique@[j].1@,
                            path@,
                        );
                    assert(self.model@.contains_key(self.shader_to_unique@[j].0));
                }
                assert forall|x: Shader| old(self).dependents(path@).contains(x) implies m.contains(x) by {
                    assert(self.model@.contains_key(x));
                    let j = choose|j: int| 0 <= j < self.shader_to_unique.len() && #[trigger] self.shader_to_unique@[j].0 == x;
                    assert(self.model@[self.shader_to_unique@[j].0] == self.shader_to_unique@[j].1@);
                }
            }
        }
    }

    /// Takes the pending handles, each once and with its descriptor, and
    /// leaves none pending.
    fn updates(&mut self) -> (r: Vec<(Shader, UniquePipeline)>)
        requires
            old(self).wf(),
        ensures
            Self::drained(*old(self), *final(self), jobs_view(r@)),
    {
        let mut out: Vec<(Shader, UniquePipeline)> = Vec::new();
        let mut i: usize = 0;
        while i < self.updates.len()
            invariant
                self.wf(),
                self.updates@ == old(self).updates@,
                self.shader_to_unique@ == old(self).shader_to_unique@,
                self.model@ == old(self).model@,
                i <= self.updates.len(),
                out.len() == i,
                forall|k: int|
                    0 <= k < i ==> (#[trigger] out@[k]).0 == self.updates@[k] && out@[k].1@
                        == self.model@[self.updates@[k]],
            decreases self.updates.len() - i,
        {
            let h = self.updates[i];
            proof {
                assert(self.model@.contains_key(self.updates@[i as int]));
            }
            if let Some(j) = self.position_of(h) {
                let d = self.shader_to_unique[j].1.clone();
                out.push((h, d));
            }
            i = i + 1;
        }
        let ghost pend = self.updates@;
        self.updates = Vec::new();
        proof {
            let jobs = jobs_view(out@);
            let hs = jobs.map_values(|j: (Shader, PipelineModel)| j.0);
            assert(hs =~= pend);
            assert(self.updates@.to_set() =~= Set::<Shader>::empty());
            assert forall|h: Shader| #[trigger] self.model@.contains_key(h) implies exists|k: int|
                0 <= k < self.shader_to_unique.len() && #[trigger] self.shader_to_unique@[k].0 == h by {
                assert(old(self).model@.contains_key(h));
                let k = choose|k: int| 0 <= k < old(self).shader_to_unique.len() && #[trigger] old(self).shader_to_unique@[k].0 == h;
                assert(self.shader_to_unique@[k].0 == h);
            }
            assert forall|k: int| 0 <= k < jobs.len() implies #[trigger] jobs[k].1 == old(self).pipelines()[jobs[k].0] by {
                assert(out@[k].0 == pend[k]);
            }
        }
        out
    }
}

/// Maps each tracked shader handle to its descriptor and collects the
/// handles whose sources changed since the last drain.
pub struct ShaderUpdateCalculator {
    graph: DependencyGraph,
}

impl ShaderUpdateCalculator {
    #[verifier::type_invariant]
    spec fn inv(&self) -> bool {
        self.graph.wf()
    }

    /// The descriptor of each tracked handle.
    pub closed spec fn pipelines(&self) -> Map<Shader, PipelineModel> {
        self.graph.pipelines()
    }

    /// The handles pending recompilation.
    pub closed spec fn pending(&self) -> Set<Shader> {
        self.graph.pending()
    }

    /// The tracked handles whose descriptor reads the file at `path`.
    pub open spec fn dependents(&self, path: Seq<char>) -> Set<Shader> {
        Set::new(|h: Shader| self.pipelines().contains_key(h) && uses_path(self.pipelines()[h], path))
    }

    /// `new` is `old` after `track_shader(handle, d)`.
    pub open spec fn registered(old: Self, new: Self, handle: Shader, d: PipelineModel) -> bool {
        &&& new.pipelines() == old.pipelines().insert(handle, d)
        &&& new.pending() == old.pending().insert(handle)
    }

    /// `new` is `old` after `shader_file_touched(path)`.
    pub open spec fn touched(old: Self, new: Self, path: Seq<char>) -> bool {
        &&& new.pipelines() == old.pipelines()
        &&& new.pending() == old.pending().union(old.dependents(path))
    }

    /// `new` is `old` after `updates()` returned `jobs`: each pending handle
    /// once, with its descriptor, and nothing pending any more.
    pub open spec fn drained(old: Self, new: Self, jobs: Seq<(Shader, PipelineModel)>) -> bool {
        &&& new.pipelines() == old.pipelines()
        &&& new.pending() == Set::<Shader>::empty()
        &&& jobs.map_values(|j: (Shader, PipelineModel)| j.0).no_duplicates()
        &&& jobs.map_values(|j: (Shader, PipelineModel)| j.0).to_set() == old.pending()
        &&& forall|i: int|
            0 <= i < jobs.len() ==> #[trigger] jobs[i].1 == old.pipelines()[jobs[i].0]
    }

    pub fn new() -> (r: Self)
        ensures
            r.pipelines() == Map::<Shader, PipelineModel>::empty(),
            r.pending() == Set::<Shader>::empty(),
    {
        ShaderUpdateCalculator { graph: DependencyGraph::new() }
    }

    /// Moves the graph out, leaving an empty one in its place.
    fn take_graph(&mut self) -> (g: DependencyGraph)
        ensures
            g.wf(),
            g == old(self).graph,
    {
        proof {
            use_type_invariant(&*self);
        }
        let mut g = DependencyGraph::new();
        std::mem::swap(&mut g, &mut self.graph);
        g
    }

    /// Records `handle` with descriptor `unique`, replacing any earlier
    /// descriptor of it, and marks it pending: a first registration always
    /// compiles. The paths are taken as given: callers pass them
    /// canonicalized, so that notifications about the same file match.
    pub fn track_shader(&mut self, handle: Shader, unique: UniquePipeline)
        ensures
            Self::registered(*old(self), *final(self), handle, unique@),
    {
        let mut g = self.take_graph();
        g.track_shader(handle, unique);
        self.graph = g;
    }

    /// Marks pending every tracked handle whose descriptor reads the file at
    /// `path`; a path that no descriptor reads changes nothing. The path is
    /// taken as given: callers pass it canonicalized.
    pub fn shader_file_touched(&mut self, path: &String)
        ensures
            Self::touched(*old(self), *final(self), path@),
    {
        let mut g = self.take_graph();
        g.shader_file_touched(path);
        self.graph = g;
        assert(self.dependents(path@) =~= g.dependents(path@));
    }

    /// Takes the pending handles, each once and with its descriptor, and
    /// leaves none pending.
    pub fn updates(&mut self) -> (r: Vec<(Shader, UniquePipeline)>)
        ensures
            Self::drained(*old(self), *final(self), jobs_view(r@)),
    {
        let mut g = self.take_graph();
        let r = g.updates();
        self.graph = g;
        r
    }
}

/// The handles that depend on at least one of `paths`.
pub open spec fn dependents_of_any(t: ShaderUpdateCalculator, paths: Seq<Seq<char>>) -> Set<Shader> {
    Set::new(|h: Shader| exists|i: int| 0 <= i < paths.len() && #[trigger] t.dependents(paths[i]).contains(h))
}

/// A run of `shader_file_touched` calls: `states[i + 1]` is `states[i]`
/// after touching `paths[i]`.
pub open spec fn touch_run(states: Seq<ShaderUpdateCalculator>, paths: Seq<Seq<char>>) -> bool {
    &&& states.len() == paths.len() + 1
    &&& forall|i: int|
        0 <= i < paths.len() ==> ShaderUpdateCalculator::touched(
            states[i],
            #[trigger] states[i + 1],
            paths[i],
        )
}

/// Starting from an empty pending set (right after a drain), any run of
/// touches leaves pending exactly the handles that depend on one of the
/// touched paths.
pub proof fn lemma_touches_collect_dependents(states: Seq<ShaderUpdateCalculator>, paths: Seq<Seq<char>>)
    requires
        touch_run(states, paths),
        states[0].pending() == Set::<Shader>::empty(),
    ensures
        states.last().pipelines() == states[0].pipelines(),
        states.last().pending() == dependents_of_any(states[0], paths),
    decreases paths.len(),
{
    if paths.len() == 0 {
        assert(dependents_of_any(states[0], paths) =~= Set::<Shader>::empty());
    } else {
        let n = paths.len() - 1;
        let s2 = states.drop_last();
        let p2 = paths.drop_last();
        assert forall|i: int| 0 <= i < p2.len() implies ShaderUpdateCalculator::touched(
            s2[i],
            #[trigger] s2[i + 1],
            p2[i],
        ) by {
            assert(ShaderUpdateCalculator::touched(states[i], states[i + 1], paths[i]));
        }
        lemma_touches_collect_dependents(s2, p2);
        assert(ShaderUpdateCalculator::touched(states[n], states[n + 1], paths[n]));
        assert(s2.last() == states[n]);
        assert(states[n].dependents(paths[n]) =~= states[0].dependents(paths[n]));
        assert(states.last().pending() =~= dependents_of_any(states[0], paths)) by {
            assert forall|h: Shader| #[trigger] states.last().pending().contains(h) implies dependents_of_any(states[0], paths).contains(h) by {
                if dependents_of_any(states[0], p2).contains(h) {
                    let i = choose|i: int| 0 <= i < p2.len() && #[trigger] states[0].dependents(p2[i]).contains(h);
                    assert(paths[i] == p2[i]);
                } else {
                    assert(states[0].dependents(paths[n]).contains(h));
                }
            }
            assert forall|h: Shader| dependents_of_any(states[0], paths).contains(h) implies #[trigger] states.last().pending().contains(h) by {
                let i = choose|i: int| 0 <= i < paths.len() && #[trigger] states[0].dependents(paths[i]).contains(h);
                if i < n {
                    assert(p2[i] == paths[i]);
                    assert(dependents_of_any(states[0], p2).contains(h));
                }
            }
        }
    }
}

/// The pending set left by a run of touches depends only on which paths
/// were touched: not on their order, nor on how often each was touched.
pub proof fn lemma_touch_order_irrelevant(
    s1: Seq<ShaderUpdateCalculator>,
    p1: Seq<Seq<char>>,
    s2: Seq<ShaderUpdateCalculator>,
    p2: Seq<Seq<char>>,
)
    requires
        touch_run(s1, p1),
        touch_run(s2, p2),
        s1[0].pending() == Set::<Shader>::empty(),
        s2[0].pending() == Set::<Shader>::empty(),
        s1[0].pipelines() == s2[0].pipelines(),
        p1.to_set() == p2.to_set(),
    ensures
        s1.last().pending() == s2.last().pending(),
{
    lemma_touches_collect_dependents(s1, p1);
    lemma_touches_collect_dependents(s2, p2);
    assert(dependents_of_any(s1[0], p1) =~= dependents_of_any(s2[0], p2)) by {
        assert forall|h: Shader| dependents_of_any(s1[0], p1).contains(h) implies dependents_of_any(s2[0], p2).contains(h) by {
            let i = choose|i: int| 0 <= i < p1.len() && #[trigger] s1[0].dependents(p1[i]).contains(h);
            assert(p1.to_set().contains(p1[i]));
            let j = choose|j: int| 0 <= j < p2.len() && p2[j] == p1[i];
            assert(s2[0].dependents(p2[j]).contains(h));
        }
        assert forall|h: Shader| dependents_of_any(s2[0], p2).contains(h) implies dependents_of_any(s1[0], p1).contains(h) by {
            let i = choose|i: int| 0 <= i < p2.len() && #[trigger] s2[0].dependents(p2[i]).contains(h);
            assert(p2.to_set().contains(p2[i]));
            let j = choose|j: int| 0 <= j < p1.len() && p1[j] == p2[i];
            assert(s1[0].dependents(p1[j]).contains(h));
        }
    }
}

/// One call that leaves `h` alone: tracking another handle, or touching a
/// path.
pub open spec fn other_call(a: ShaderUpdateCalculator, b: ShaderUpdateCalculator, h: Shader) -> bool {
    (exists|g: Shader, d: PipelineModel| g != h && #[trigger] ShaderUpdateCalculator::registered(a, b, g, d))
        || (exists|p: Seq<char>| #[trigger] ShaderUpdateCalculator::touched(a, b, p))
}

proof fn lemma_other_calls_keep(states: Seq<ShaderUpdateCalculator>, h: Shader, d: PipelineModel, k: int)
    requires
        1 <= k < states.len(),
        states[1].pending().contains(h),
        states[1].pipelines().contains_key(h),
        states[1].pipelines()[h] == d,
        forall|i: int| 1 <= i < states.len() - 1 ==> other_call(states[i], #[trigger] states[i + 1], h),
    ensures
        states[k].pending().contains(h),
        states[k].pipelines().contains_key(h),
        states[k].pipelines()[h] == d,
    decreases k,
{
    if k > 1 {
        let j = k - 1;
        lemma_other_calls_keep(states, h, d, j);
        assert(other_call(states[j], states[j + 1], h));
        if exists|g: Shader, e: PipelineModel| g != h && #[trigger] ShaderUpdateCalculator::registered(states[j], states[j + 1], g, e) {
            let (g, e) = choose|g: Shader, e: PipelineModel| g != h && #[trigger] ShaderUpdateCalculator::registered(states[j], states[j + 1], g, e);
            assert(states[j + 1].pipelines() == states[j].pipelines().insert(g, e));
        } else {
            let p = choose|p: Seq<char>| #[trigger] ShaderUpdateCalculator::touched(states[j], states[j + 1], p);
            assert(states[j + 1].pending() == states[j].pending().union(states[j].dependents(p)));
        }
    }
}

/// Once `track_shader(h, d)` returned, `h` stays pending with descriptor
/// `d` however many other handles are tracked and paths touched after it,
/// and the next drain hands out exactly one entry for `h`: `(h, d)`.
pub proof fn lemma_tracked_drained_once(
    states: Seq<ShaderUpdateCalculator>,
    h: Shader,
    d: PipelineModel,
    after: ShaderUpdateCalculator,
    jobs: Seq<(Shader, PipelineModel)>,
)
    requires
        states.len() >= 2,
        ShaderUpdateCalculator::registered(states[0], states[1], h, d),
        forall|i: int| 1 <= i < states.len() - 1 ==> other_call(states[i], #[trigger] states[i + 1], h),
        ShaderUpdateCalculator::drained(states.last(), after, jobs),
    ensures
        exists|k: int| 0 <= k < jobs.len() && #[trigger] jobs[k] == (h, d),
        forall|a: int, b: int|
            0 <= a < jobs.len() && 0 <= b < jobs.len() && #[trigger] jobs[a].0 == h
                && #[trigger] jobs[b].0 == h ==> a == b,
{
    lemma_other_calls_keep(states, h, d, states.len() - 1);
    let hs = jobs.map_values(|j: (Shader, PipelineModel)| j.0);
    assert(hs.to_set().contains(h));
    let k = choose|k: int| 0 <= k < hs.len() && hs[k] == h;
    assert(jobs[k].0 == h);
    assert(jobs[k].1 == states.last().pipelines()[h]);
    assert(jobs[k] == (h, d));
    assert forall|a: int, b: int|
        0 <= a < jobs.len() && 0 <= b < jobs.len() && #[trigger] jobs[a].0 == h
            && #[trigger] jobs[b].0 == h implies a == b by {
        assert(hs[a] == hs[b]);
    }
}

/// A drain right after a drain, with no touch or track between them, hands
/// out nothing.
pub proof fn lemma_second_drain_empty(
    a: ShaderUpdateCalculator,
    b: ShaderUpdateCalculator,
    c: ShaderUpdateCalculator,
    first: Seq<(Shader, PipelineModel)>,
    second: Seq<(Shader, PipelineModel)>,
)
    requires
        ShaderUpdateCalculator::drained(a, b, first),
        ShaderUpdateCalculator::drained(b, c, second),
    ensures
        second.len() == 0,
        c.pending() == Set::<Shader>::empty(),
{
    let hs = second.map_values(|j: (Shader, PipelineModel)| j.0);
    if second.len() > 0 {
        assert(hs.to_set().contains(hs[0]));
    }
}

} // verus!
