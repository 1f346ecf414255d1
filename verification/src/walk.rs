//! The walk over the modules of a program: which to load next, and in which order they are
//! done.

use vstd::prelude::*;
use crate::ir::strings_view;
use crate::modules::{action_for, GraphV, ImportAction, ImportFacts, ModuleGraph};

verus! {

/// What comes next in a walk.
#[derive(Debug)]
pub enum WalkStep {
    /// Look at the import with this number of the file at the path.
    Import(String, usize),
    /// Every import of the module at the path is dealt with: finish it.
    Finish(String),
    /// Every import of the root is dealt with.
    Done,
}

/// The model of a step.
pub enum WalkStepV {
    Import(Seq<char>, nat),
    Finish(Seq<char>),
    Done,
}

impl WalkStep {
    pub open spec fn view(&self) -> WalkStepV {
        match self {
            WalkStep::Import(path, index) => WalkStepV::Import(path@, *index as nat),
            WalkStep::Finish(path) => WalkStepV::Finish(path@),
            WalkStep::Done => WalkStepV::Done,
        }
    }
}

/// How far a file is dealt with: the imports that are, and all of them.
#[derive(Clone, Copy, Debug)]
pub struct Progress {
    pub next: usize,
    pub imports: usize,
}

/// The model of a walk: the modules that are being loaded with their progress, those that are
/// done in their order, and which module was found to import which.
pub struct WalkV {
    pub graph: GraphV,
    pub progress: Seq<Progress>,
    pub order: Seq<Seq<char>>,
    pub edges: Set<(Seq<char>, Seq<char>)>,
}

/// Whether one name stands before another in a list.
pub open spec fn stands_before(list: Seq<Seq<char>>, a: Seq<char>, b: Seq<char>) -> bool {
    exists|i: int, j: int|
        0 <= i < j < list.len() && #[trigger] list[i] == a && #[trigger] list[j] == b
}

/// Whether a module is being loaded for another: it stands right behind it in the list.
pub open spec fn loaded_for(visiting: Seq<Seq<char>>, a: Seq<char>, b: Seq<char>) -> bool {
    exists|k: int| 0 <= k < visiting.len() - 1 && visiting[k] == a && #[trigger] visiting[k + 1] == b
}

impl WalkV {
    /// The file that is being dealt with.
    pub open spec fn here(self) -> Seq<char> {
        self.graph.visiting.last()
    }

    /// Whether an import is left in the file that is being dealt with.
    pub open spec fn import_left(self) -> bool {
        self.progress.last().next < self.progress.last().imports
    }

    pub open spec fn wf(self) -> bool {
        &&& self.graph.visiting.len() == self.progress.len()
        &&& self.progress.len() > 0
        &&& self.graph.visiting.no_duplicates()
        &&& self.order.no_duplicates()
        &&& forall|m: Seq<char>| #[trigger] self.graph.seen.contains(m) <==> self.order.contains(m)
        &&& forall|m: Seq<char>| #[trigger]
            self.graph.visiting.contains(m) ==> !self.order.contains(m)
        &&& forall|a: Seq<char>, b: Seq<char>| #[trigger]
            self.edges.contains((a, b)) ==> self.placed(a, b)
    }

    /// What holds of a module and one that it imports: the second is done before the first
    /// is, or is being loaded for it.
    pub open spec fn placed(self, a: Seq<char>, b: Seq<char>) -> bool {
        ||| stands_before(self.order, b, a)
        ||| self.graph.visiting.contains(a) && (self.order.contains(b) || loaded_for(
            self.graph.visiting,
            a,
            b,
        ))
    }

    /// What comes next.
    pub open spec fn step(self) -> WalkStepV {
        if self.import_left() {
            WalkStepV::Import(self.here(), self.progress.last().next as nat)
        } else if self.progress.len() > 1 {
            WalkStepV::Finish(self.here())
        } else {
            WalkStepV::Done
        }
    }

    /// The walk with one more import dealt with.
    pub open spec fn advanced(self) -> WalkV {
        let p = self.progress.last();
        WalkV {
            progress: self.progress.update(
                self.progress.len() - 1,
                Progress { next: (p.next + 1) as usize, ..p },
            ),
            ..self
        }
    }

    /// The walk with the import of a module that is done.
    pub open spec fn noted(self, key: Seq<char>) -> WalkV {
        let edges = if self.graph.seen.contains(key) {
            self.edges.insert((self.here(), key))
        } else {
            self.edges
        };
        WalkV { edges, ..self.advanced() }
    }

    /// The walk in a module that the file at hand imports.
    pub open spec fn entered(self, key: Seq<char>, imports: usize) -> WalkV {
        let w = self.advanced();
        WalkV {
            graph: w.graph.entered(key),
            progress: w.progress.push(Progress { next: 0, imports }),
            edges: w.edges.insert((self.here(), key)),
            ..w
        }
    }

    /// The walk with the module at hand done.
    pub open spec fn finished(self) -> WalkV {
        WalkV {
            graph: self.graph.left(self.here()),
            progress: self.progress.drop_last(),
            order: self.order.push(self.here()),
            ..self
        }
    }
}

/// A name stands before those that are added.
proof fn lemma_before_push(list: Seq<Seq<char>>, a: Seq<char>, b: Seq<char>, c: Seq<char>)
    ensures
        stands_before(list, a, b) ==> stands_before(list.push(c), a, b),
        list.contains(a) ==> stands_before(list.push(c), a, c),
{
    let more = list.push(c);
    if stands_before(list, a, b) {
        let (i, j) = choose|i: int, j: int|
            0 <= i < j < list.len() && #[trigger] list[i] == a && #[trigger] list[j] == b;
        assert(more[i] == a && more[j] == b);
    }
    if list.contains(a) {
        let i = choose|i: int| 0 <= i < list.len() && list[i] == a;
        assert(more[i] == a && more[list.len() as int] == c);
    }
}

proof fn lemma_noted(w: WalkV, key: Seq<char>)
    requires
        w.wf(),
    ensures
        w.noted(key).wf(),
{
    let n = w.noted(key);
    assert(n.graph.visiting[n.graph.visiting.len() - 1] == w.here());
    assert forall|a: Seq<char>, b: Seq<char>| #[trigger] n.edges.contains((a, b)) implies n.placed(
        a,
        b,
    ) by {
        if w.edges.contains((a, b)) {
            assert(w.placed(a, b));
        }
    }
}

proof fn lemma_entered(w: WalkV, key: Seq<char>, imports: usize)
    requires
        w.wf(),
        !w.graph.visiting.contains(key),
        !w.graph.seen.contains(key),
    ensures
        w.entered(key, imports).wf(),
{
    let n = w.entered(key, imports);
    let old_list = w.graph.visiting;
    let list = n.graph.visiting;
    let top = old_list.len() - 1;
    assert(list[top] == w.here() && list[top + 1] == key);
    assert forall|m: Seq<char>| #[trigger] list.contains(m) implies !n.order.contains(m) by {
        if m != key {
            let k = choose|k: int| 0 <= k < list.len() && list[k] == m;
            assert(old_list[k] == m && old_list.contains(m));
        }
    }
    assert forall|a: Seq<char>, b: Seq<char>| #[trigger] n.edges.contains((a, b)) implies n.placed(
        a,
        b,
    ) by {
        if a == w.here() && b == key {
            assert(list.contains(a));
            assert(loaded_for(list, a, b));
        } else {
            assert(w.placed(a, b));
            if old_list.contains(a) {
                let k = choose|k: int| 0 <= k < old_list.len() && old_list[k] == a;
                assert(list[k] == a);
            }
            if loaded_for(old_list, a, b) {
                let k = choose|k: int|
                    0 <= k < old_list.len() - 1 && old_list[k] == a && #[trigger] old_list[k + 1]
                        == b;
                assert(list[k] == a && list[k + 1] == b);
            }
        }
    }
}

proof fn lemma_finished(w: WalkV)
    requires
        w.wf(),
        w.progress.len() > 1,
    ensures
        w.finished().wf(),
{
    let n = w.finished();
    let done = w.here();
    let old_list = w.graph.visiting;
    let list = n.graph.visiting;
    let top = old_list.len() - 1;
    assert(old_list[top] == done);
    assert(old_list.contains(done));
    assert forall|m: Seq<char>| #[trigger] n.graph.seen.contains(m) <==> n.order.contains(m) by {
        if n.order.contains(m) && m != done {
            let k = choose|k: int| 0 <= k < n.order.len() && n.order[k] == m;
            assert(w.order[k] == m);
        }
        if n.graph.seen.contains(m) {
            if m == done {
                assert(n.order[w.order.len() as int] == m);
            } else {
                let k = choose|k: int| 0 <= k < w.order.len() && w.order[k] == m;
                assert(n.order[k] == m);
            }
        }
    }
    assert forall|m: Seq<char>| #[trigger] list.contains(m) implies !n.order.contains(m) by {
        let k = choose|k: int| 0 <= k < list.len() && list[k] == m;
        assert(old_list[k] == m && old_list.contains(m));
        assert(m != done);
        if n.order.contains(m) {
            let j = choose|j: int| 0 <= j < n.order.len() && n.order[j] == m;
            assert(w.order[j] == m);
        }
    }
    assert forall|a: Seq<char>, b: Seq<char>| #[trigger] n.edges.contains((a, b)) implies n.placed(
        a,
        b,
    ) by {
        assert(w.placed(a, b));
        lemma_before_push(w.order, b, a, done);
        if !stands_before(w.order, b, a) {
            let k = choose|k: int| 0 <= k < old_list.len() && old_list[k] == a;
            if a == done {
                assert(!loaded_for(old_list, a, b));
            } else {
                assert(list[k] == a);
                assert(list.contains(a));
                if w.order.contains(b) {
                    let j = choose|j: int| 0 <= j < w.order.len() && w.order[j] == b;
                    assert(n.order[j] == b);
                } else {
                    let j = choose|j: int|
                        0 <= j < old_list.len() - 1 && old_list[j] == a && #[trigger] old_list[j
                            + 1] == b;
                    if j + 1 == top {
                        assert(n.order[w.order.len() as int] == b);
                    } else {
                        assert(list[j] == a && list[j + 1] == b);
                        assert(loaded_for(list, a, b));
                    }
                }
            }
        }
    }
}

/// A module is done only after the modules that it imports.
pub proof fn law_imports_are_done_first(w: WalkV, a: Seq<char>, b: Seq<char>)
    requires
        w.wf(),
        w.edges.contains((a, b)),
        w.order.contains(a),
    ensures
        stands_before(w.order, b, a),
{
    assert(w.placed(a, b));
}

/// No module is done twice, and none is done while it is being loaded.
pub proof fn law_modules_are_done_once(w: WalkV, i: int, j: int)
    requires
        w.wf(),
        0 <= i < w.order.len(),
        0 <= j < w.order.len(),
    ensures
        w.order[i] == w.order[j] ==> i == j,
        !w.graph.visiting.contains(w.order[i]),
{
    assert(w.order.contains(w.order[i]));
}

/// Once the walk is over, every module that was found to be imported is done.
pub proof fn law_all_imports_are_done(w: WalkV, a: Seq<char>, b: Seq<char>)
    requires
        w.wf(),
        w.step() is Done,
        w.edges.contains((a, b)),
    ensures
        w.order.contains(b),
        w.order.contains(a) || a == w.graph.visiting[0],
{
    assert(w.placed(a, b));
    if stands_before(w.order, b, a) {
        let (i, j) = choose|i: int, j: int|
            0 <= i < j < w.order.len() && #[trigger] w.order[i] == b && #[trigger] w.order[j] == a;
        assert(w.order.contains(a) && w.order.contains(b));
    }
}

/// A walk over the modules of a program.
pub struct ModuleWalk {
    graph: ModuleGraph,
    here: Vec<String>,
    progress: Vec<Progress>,
    order: Vec<String>,
    edges: Ghost<Set<(Seq<char>, Seq<char>)>>,
}

impl ModuleWalk {
    pub closed spec fn view(&self) -> WalkV {
        WalkV {
            graph: self.graph@,
            progress: self.progress@,
            order: strings_view(self.order@),
            edges: self.edges@,
        }
    }

    pub closed spec fn wf(&self) -> bool {
        &&& self@.wf()
        &&& strings_view(self.here@) == self@.graph.visiting
    }

    /// A walk that starts with a file with a number of imports.
    pub fn new(root: String, imports: usize) -> (r: ModuleWalk)
        ensures
            r.wf(),
            r@.wf(),
            r@ == (WalkV {
                graph: GraphV { visiting: seq![root@], seen: Set::empty() },
                progress: seq![Progress { next: 0, imports }],
                order: Seq::empty(),
                edges: Set::empty(),
            }),
    {
        let mut here: Vec<String> = Vec::new();
        here.push(root.clone());
        let mut progress: Vec<Progress> = Vec::new();
        progress.push(Progress { next: 0, imports });
        let r = ModuleWalk {
            graph: ModuleGraph::new(root),
            here,
            progress,
            order: Vec::new(),
            edges: Ghost(Set::empty()),
        };
        assert(r@.progress =~= seq![Progress { next: 0, imports }]);
        assert(r@.order =~= Seq::<Seq<char>>::empty());
        assert(strings_view(r.here@) =~= seq![root@]);
        r
    }

    /// What comes next.
    pub fn step(&self) -> (r: WalkStep)
        requires
            self.wf(),
        ensures
            r@ == self@.step(),
    {
        let top: usize = self.progress.len() - 1;
        let p = self.progress[top];
        assert(strings_view(self.here@).last() == self.here@[top as int]@);
        if p.next < p.imports {
            WalkStep::Import(self.here[top].clone(), p.next)
        } else if self.progress.len() > 1 {
            WalkStep::Finish(self.here[top].clone())
        } else {
            WalkStep::Done
        }
    }

    /// Passes over the import at hand.
    pub fn pass(&mut self)
        requires
            old(self).wf(),
            old(self)@.import_left(),
        ensures
            final(self).wf(),
            final(self)@.wf(),
            final(self)@ == old(self)@.advanced(),
    {
        let top: usize = self.progress.len() - 1;
        let p = self.progress[top];
        self.progress.set(top, Progress { next: p.next + 1, imports: p.imports });
        assert(self@.progress =~= old(self)@.advanced().progress);
        assert forall|a: Seq<char>, b: Seq<char>| #[trigger]
            self@.edges.contains((a, b)) implies self@.placed(a, b) by {
            assert(old(self)@.placed(a, b));
        }
    }

    /// Decides what to do about the import at hand, which names the module at `key`. One that
    /// is nothing to load for is dealt with by that.
    pub fn decide(&mut self, key: &str, facts: ImportFacts) -> (r: ImportAction)
        requires
            old(self).wf(),
            old(self)@.import_left(),
        ensures
            final(self).wf(),
            final(self)@.wf(),
            r == action_for(old(self)@.graph, old(self)@.here(), key@, facts),
            final(self)@ == if r == ImportAction::Skip {
                old(self)@.noted(key@)
            } else {
                old(self)@
            },
    {
        let top: usize = self.progress.len() - 1;
        assert(strings_view(self.here@).last() == self.here@[top as int]@);
        let action = self.graph.action(self.here[top].as_str(), key, facts);
        if action == ImportAction::Skip {
            proof {
                lemma_noted(self@, key@);
            }
            self.edges = Ghost(self@.noted(key@).edges);
            let p = self.progress[top];
            self.progress.set(top, Progress { next: p.next + 1, imports: p.imports });
            assert(self@.progress =~= old(self)@.advanced().progress);
        }
        action
    }

    /// Goes into the module at `key`, which has a number of imports.
    pub fn enter(&mut self, key: String, imports: usize)
        requires
            old(self).wf(),
            old(self)@.import_left(),
            !old(self)@.graph.visiting.contains(key@),
            !old(self)@.graph.seen.contains(key@),
        ensures
            final(self).wf(),
            final(self)@.wf(),
            final(self)@ == old(self)@.entered(key@, imports),
    {
        proof {
            lemma_entered(self@, key@, imports);
        }
        self.edges = Ghost(self@.entered(key@, imports).edges);
        let top: usize = self.progress.len() - 1;
        let p = self.progress[top];
        self.progress.set(top, Progress { next: p.next + 1, imports: p.imports });
        self.progress.push(Progress { next: 0, imports });
        self.here.push(key.clone());
        self.graph.enter(key);
        assert(self@.progress =~= old(self)@.entered(key@, imports).progress);
        assert(strings_view(self.here@) =~= old(self)@.graph.visiting.push(key@));
    }

    /// Leaves the module at hand, which is done.
    pub fn finish(&mut self)
        requires
            old(self).wf(),
            old(self)@.step() is Finish,
        ensures
            final(self).wf(),
            final(self)@.wf(),
            final(self)@ == old(self)@.finished(),
    {
        proof {
            lemma_finished(self@);
        }
        let top: usize = self.here.len() - 1;
        assert(strings_view(self.here@).last() == self.here@[top as int]@);
        let key = self.here[top].clone();
        self.here.pop();
        self.progress.pop();
        self.order.push(key.clone());
        self.graph.leave(key);
        assert(self@.order =~= old(self)@.finished().order);
        assert(strings_view(self.here@) =~= old(self)@.graph.visiting.drop_last());
    }

    /// The modules that are done, in their order.
    pub fn into_order(self) -> (r: Vec<String>)
        ensures
            strings_view(r@) == self@.order,
    {
        self.order
    }
}

} // verus!
