use vstd::prelude::*;
use crate::order::{index_of_min, lemma_distinct_indices_onto, is_stable_order, lemma_stable_order_unique, lex_before, stable_argsort};

verus! {

/// The hard cap on simplex iterations.
pub const MAX_ITER: usize = 1000;

/// A trial point of one iteration, computed from the centroid `c` of all vertices
/// but the worst `w`: reflection `c + (c - w)`, expansion `c + 2 (xr - c)`,
/// contraction `c + (w - c) / 2`.
#[derive(Clone, Copy, Debug, PartialEq, Eq, Structural)]
pub enum Probe {
    Reflection,
    Expansion,
    Contraction,
}

/// What the driver reports back to the controller.
#[derive(Clone, Copy, Debug, PartialEq, Eq, Structural)]
pub enum Event {
    /// Whether the best and worst scores differ by less than the tolerance.
    Spread { converged: bool },
    /// The order key of the score of the point last asked for.
    Scored { key: u64 },
    /// The replacement last asked for has been made.
    Applied,
}

/// What the controller asks the driver to do next.
#[derive(Clone, Copy, Debug, PartialEq, Eq, Structural)]
pub enum Action {
    /// Compare the scores of two vertices against the tolerance.
    CheckSpread { best: usize, worst: usize },
    /// Compute and score a trial point; `worst` is the vertex it is built from.
    Evaluate { probe: Probe, worst: usize },
    /// Put the trial point last computed for `probe` in place of `vertex`.
    Replace { vertex: usize, probe: Probe },
    /// Move `vertex` halfway toward `toward` and score it.
    Shrink { vertex: usize, toward: usize },
    /// The search is over; `best` holds the lowest score.
    Finish { best: usize },
    /// The event does not fit the current phase; nothing changed.
    Unexpected,
}

/// Where the controller stands within an iteration.
#[derive(Clone, Copy, Debug, PartialEq, Eq, Structural)]
pub enum Phase {
    Spread,
    Reflection,
    Expansion { reflected: u64 },
    Contraction,
    Shrinking { pos: usize },
    Replacing,
    Finished { best: usize },
}

/// The decision state of a Nelder–Mead search over `dim + 1` vertices: the order
/// key of each vertex's score, the vertex order fixed at the start of the current
/// iteration, how many iterations have started, and the phase.
#[derive(Debug)]
pub struct NelderMead {
    pub dim: usize,
    pub keys: Vec<u64>,
    pub order: Vec<usize>,
    pub iteration: usize,
    pub phase: Phase,
}

/// `order` lists each of the `n` vertices once.
pub open spec fn is_permutation(order: Seq<usize>, n: nat) -> bool {
    &&& order.len() == n
    &&& forall|p: int| 0 <= p < order.len() ==> order[p] < n
    &&& forall|p: int, q: int| 0 <= p < q < order.len() ==> order[p] != order[q]
}

/// Only one vertex is the first to hold the least key.
pub proof fn lemma_first_min_unique(keys: Seq<u64>, b1: int, b2: int)
    requires
        is_first_min(keys, b1),
        is_first_min(keys, b2),
    ensures
        b1 == b2,
{
    if b1 < b2 {
        assert(keys[b2] < keys[b1]);
    } else if b2 < b1 {
        assert(keys[b1] < keys[b2]);
    }
}

/// `best` is the first vertex holding the least key.
pub open spec fn is_first_min(keys: Seq<u64>, best: int) -> bool {
    &&& 0 <= best < keys.len()
    &&& forall|i: int| 0 <= i < keys.len() ==> keys[best] <= keys[i]
    &&& forall|i: int| 0 <= i < best ==> keys[best] < keys[i]
}

impl NelderMead {
    pub open spec fn wf(&self) -> bool {
        &&& 1 <= self.dim < usize::MAX
        &&& self.keys@.len() == self.dim + 1
        &&& is_permutation(self.order@, (self.dim + 1) as nat)
        &&& self.iteration <= MAX_ITER
        &&& match self.phase {
            Phase::Shrinking { pos } => 1 <= pos <= self.dim,
            Phase::Finished { best } => best <= self.dim,
            _ => true,
        }
        &&& !(self.phase is Replacing || self.phase is Finished) ==> self.ordered_from(self.unvisited_from())
        &&& self.phase matches Phase::Expansion { reflected } ==> reflected < self.keys@[self.best_vertex() as int]
    }

    /// The first position of the order whose key the current iteration may
    /// still rely on: all of them until a shrink begins.
    pub open spec fn unvisited_from(&self) -> int {
        match self.phase {
            Phase::Shrinking { pos } => pos as int,
            _ => 1,
        }
    }

    /// The best vertex's key is at most the key of every vertex from position
    /// `from` of the order on, and those keys are in order.
    pub open spec fn ordered_from(&self, from: int) -> bool {
        forall|p: int, q: int| (p == 0 || from <= p) && (q == 0 || from <= q) && p <= q <= self.dim ==>
            self.keys@[#[trigger] self.order@[p] as int] <= self.keys@[#[trigger] self.order@[q] as int]
    }

    pub open spec fn best_vertex(&self) -> usize {
        self.order@[0]
    }

    pub open spec fn worst_vertex(&self) -> usize {
        self.order@[self.dim as int]
    }

    pub open spec fn second_worst_vertex(&self) -> usize {
        self.order@[self.dim - 1]
    }

    /// What starting an iteration does to a search over `dim + 1` vertices with
    /// `keys`, after `iteration` iterations: past the cap the search
    /// finishes at the first least key; otherwise the vertices are ordered by key
    /// (ties by index) and the spread between best and worst is asked for.
    pub open spec fn begins_iteration(dim: usize, keys: Seq<u64>, iteration: usize, post: &NelderMead, a: Action) -> bool {
        &&& post.dim == dim
        &&& post.keys@ == keys
        &&& if iteration >= MAX_ITER {
            &&& post.iteration == iteration
            &&& post.phase matches Phase::Finished { best }
            &&& is_first_min(post.keys@, best as int)
            &&& a == Action::Finish { best }
        } else {
            &&& post.iteration == iteration + 1
            &&& is_stable_order(post.keys@, post.order@)
            &&& post.phase == Phase::Spread
            &&& a == Action::CheckSpread { best: post.best_vertex(), worst: post.worst_vertex() }
        }
    }

    /// The controller after the worst vertex's key became `k`, with `probe` to be
    /// put in its place.
    pub open spec fn replaces_worst(pre: &NelderMead, post: &NelderMead, a: Action, k: u64, probe: Probe) -> bool {
        &&& post.dim == pre.dim
        &&& post.order@ == pre.order@
        &&& post.iteration == pre.iteration
        &&& post.keys@ == pre.keys@.update(pre.worst_vertex() as int, k)
        &&& post.phase == Phase::Replacing
        &&& a == Action::Replace { vertex: pre.worst_vertex(), probe }
    }

    /// Only the phase changes, and `a` is asked for.
    pub open spec fn moves_to(pre: &NelderMead, post: &NelderMead, a: Action, ph: Phase, want: Action) -> bool {
        &&& post.dim == pre.dim
        &&& post.keys@ == pre.keys@
        &&& post.order@ == pre.order@
        &&& post.iteration == pre.iteration
        &&& post.phase == ph
        &&& a == want
    }

    /// One step of the search protocol: the state `post` and the action `a` that
    /// follow `pre` on event `e`.
    pub open spec fn transition(pre: &NelderMead, e: Event, post: &NelderMead, a: Action) -> bool {
        match (pre.phase, e) {
            (Phase::Spread, Event::Spread { converged }) => if converged {
                &&& post.dim == pre.dim
                &&& post.keys@ == pre.keys@
                &&& post.order@ == pre.order@
                &&& post.iteration == pre.iteration
                &&& post.phase matches Phase::Finished { best }
                &&& is_first_min(post.keys@, best as int)
                &&& a == Action::Finish { best }
            } else {
                NelderMead::moves_to(pre, post, a, Phase::Reflection,
                    Action::Evaluate { probe: Probe::Reflection, worst: pre.worst_vertex() })
            },
            (Phase::Reflection, Event::Scored { key }) => {
                let b = pre.keys@[pre.best_vertex() as int];
                let sw = pre.keys@[pre.second_worst_vertex() as int];
                if key < sw && key >= b {
                    NelderMead::replaces_worst(pre, post, a, key, Probe::Reflection)
                } else if key < b {
                    NelderMead::moves_to(pre, post, a, Phase::Expansion { reflected: key },
                        Action::Evaluate { probe: Probe::Expansion, worst: pre.worst_vertex() })
                } else {
                    NelderMead::moves_to(pre, post, a, Phase::Contraction,
                        Action::Evaluate { probe: Probe::Contraction, worst: pre.worst_vertex() })
                }
            },
            (Phase::Expansion { reflected }, Event::Scored { key }) => if key < reflected {
                NelderMead::replaces_worst(pre, post, a, key, Probe::Expansion)
            } else {
                NelderMead::replaces_worst(pre, post, a, reflected, Probe::Reflection)
            },
            (Phase::Contraction, Event::Scored { key }) => if key < pre.keys@[pre.worst_vertex() as int] {
                NelderMead::replaces_worst(pre, post, a, key, Probe::Contraction)
            } else {
                NelderMead::moves_to(pre, post, a, Phase::Shrinking { pos: 1 },
                    Action::Shrink { vertex: pre.order@[1], toward: pre.best_vertex() })
            },
            (Phase::Shrinking { pos }, Event::Scored { key }) => {
                if pos < pre.dim {
                    &&& post.dim == pre.dim
                    &&& post.keys@ == pre.keys@.update(pre.order@[pos as int] as int, key)
                    &&& post.order@ == pre.order@
                    &&& post.iteration == pre.iteration
                    &&& post.phase == Phase::Shrinking { pos: (pos + 1) as usize }
                    &&& a == Action::Shrink { vertex: pre.order@[pos + 1], toward: pre.best_vertex() }
                } else {
                    NelderMead::begins_iteration(pre.dim,
                        pre.keys@.update(pre.order@[pos as int] as int, key), pre.iteration, post, a)
                }
            },
            (Phase::Replacing, Event::Applied) => NelderMead::begins_iteration(pre.dim, pre.keys@,
                pre.iteration, post, a),
            _ => {
                &&& post.dim == pre.dim
                &&& post.keys@ == pre.keys@
                &&& post.order@ == pre.order@
                &&& post.iteration == pre.iteration
                &&& post.phase == pre.phase
                &&& a == Action::Unexpected
            },
        }
    }

    /// How far a phase is from the end of its iteration.
    pub open spec fn phase_rank(dim: nat, ph: Phase) -> nat {
        match ph {
            Phase::Spread => dim + 4,
            Phase::Reflection => dim + 3,
            Phase::Contraction => dim + 2,
            Phase::Shrinking { pos } => (dim + 1 - pos) as nat,
            Phase::Expansion { .. } => 2,
            Phase::Replacing => 1,
            Phase::Finished { .. } => 0,
        }
    }

    /// An upper bound on the events still needed to finish the search.
    pub open spec fn remaining(&self) -> nat {
        match self.phase {
            Phase::Finished { .. } => 0,
            _ => ((MAX_ITER - self.iteration) * (self.dim + 5) + NelderMead::phase_rank(
                self.dim as nat,
                self.phase,
            )) as nat,
        }
    }

    /// The search always ends: every event that the controller accepts strictly
    /// lowers `remaining`, a refused one changes nothing, and a finished search
    /// accepts no event.
    pub proof fn lemma_step_progress(pre: &NelderMead, e: Event, post: &NelderMead, a: Action)
        requires
            pre.wf(),
            post.wf(),
            NelderMead::transition(pre, e, post, a),
        ensures
            a != Action::Unexpected ==> post.remaining() < pre.remaining(),
            a == Action::Unexpected ==> post.phase == pre.phase && post.keys@ == pre.keys@
                && post.iteration == pre.iteration,
            pre.phase is Finished ==> a == Action::Unexpected,
    {
        let b = (pre.dim + 5) as int;
        let left = (MAX_ITER - pre.iteration) as int;
        assert(left * b >= 0) by (nonlinear_arith)
            requires left >= 0, b >= 0;
        assert((left - 1) * b == left * b - b) by (nonlinear_arith);
    }

    /// The protocol is deterministic: from one state, an event leads to a single
    /// next state and a single action (the vertex order matters only until the
    /// search finishes).
    pub proof fn lemma_transition_deterministic(
        pre: &NelderMead,
        e: Event,
        post1: &NelderMead,
        a1: Action,
        post2: &NelderMead,
        a2: Action,
    )
        requires
            pre.wf(),
            NelderMead::transition(pre, e, post1, a1),
            NelderMead::transition(pre, e, post2, a2),
        ensures
            a1 == a2,
            post1.dim == post2.dim,
            post1.keys@ == post2.keys@,
            post1.iteration == post2.iteration,
            post1.phase == post2.phase,
            !(post1.phase is Finished) ==> post1.order@ == post2.order@,
    {
        match (pre.phase, e) {
            (Phase::Spread, Event::Spread { converged }) => {
                if converged {
                    lemma_first_min_unique(post1.keys@, post1.phase->best as int, post2.phase->best as int);
                }
            },
            (Phase::Shrinking { pos }, Event::Scored { key }) => {
                if pos >= pre.dim {
                    NelderMead::lemma_begins_deterministic(pre.dim,
                        pre.keys@.update(pre.order@[pos as int] as int, key), pre.iteration, post1, a1, post2, a2);
                }
            },
            (Phase::Replacing, Event::Applied) => {
                NelderMead::lemma_begins_deterministic(pre.dim, pre.keys@, pre.iteration, post1, a1, post2, a2);
            },
            _ => {},
        }
    }

    proof fn lemma_begins_deterministic(
        dim: usize,
        keys: Seq<u64>,
        iteration: usize,
        post1: &NelderMead,
        a1: Action,
        post2: &NelderMead,
        a2: Action,
    )
        requires
            dim < usize::MAX,
            keys.len() == dim + 1,
            NelderMead::begins_iteration(dim, keys, iteration, post1, a1),
            NelderMead::begins_iteration(dim, keys, iteration, post2, a2),
        ensures
            a1 == a2,
            post1.iteration == post2.iteration,
            post1.phase == post2.phase,
            !(post1.phase is Finished) ==> post1.order@ == post2.order@,
    {
        if iteration >= MAX_ITER {
            lemma_first_min_unique(keys, post1.phase->best as int, post2.phase->best as int);
        } else {
            lemma_stable_order_unique(keys, post1.order@, post2.order@);
        }
    }

    /// The search never loses ground: after any step, some vertex holds a key at
    /// most the key of any vertex before it, so the least key never rises.
    pub proof fn lemma_least_key_never_rises(pre: &NelderMead, e: Event, post: &NelderMead, a: Action)
        requires
            pre.wf(),
            post.wf(),
            NelderMead::transition(pre, e, post, a),
        ensures
            forall|i: int| 0 <= i < pre.keys@.len() ==>
                exists|j: int| 0 <= j < post.keys@.len() && #[trigger] post.keys@[j] <= #[trigger] pre.keys@[i],
    {
        let best = pre.best_vertex() as int;
        assert forall|i: int| 0 <= i < pre.keys@.len() implies
            exists|j: int| 0 <= j < post.keys@.len() && #[trigger] post.keys@[j] <= #[trigger] pre.keys@[i] by {
            if post.keys@[i] <= pre.keys@[i] {
            } else {
                // only the vertex at `i` changed, upward; the best vertex kept its key
                lemma_distinct_indices_onto(pre.order@, (pre.dim + 1) as nat);
                assert(pre.order@.contains(i as usize));
                let q = choose|q: int| 0 <= q < pre.order@.len() && pre.order@[q] == i as usize;
                assert(pre.keys@[i] >= pre.keys@[best]);
                assert(post.keys@[best] == pre.keys@[best]);
            }
        }
    }

    /// Orders the vertices by key at the start of an iteration, or finishes once
    /// the cap is reached.
    fn begin_iteration(&mut self) -> (a: Action)
        requires
            1 <= old(self).dim < usize::MAX,
            old(self).keys@.len() == old(self).dim + 1,
            is_permutation(old(self).order@, (old(self).dim + 1) as nat),
            old(self).iteration <= MAX_ITER,
        ensures
            final(self).wf(),
            NelderMead::begins_iteration(old(self).dim, old(self).keys@, old(self).iteration, final(self), a),
    {
        if self.iteration >= MAX_ITER {
            let best = index_of_min(&self.keys);
            self.phase = Phase::Finished { best };
            Action::Finish { best }
        } else {
            let order = stable_argsort(&self.keys);
            proof {
                assert forall|p: int, q: int| 0 <= p <= q < order@.len() implies
                    self.keys@[order@[p] as int] <= self.keys@[order@[q] as int] by {
                    if p < q {
                        assert(lex_before(self.keys@, order@[p] as int, order@[q] as int));
                    }
                }
                assert forall|p: int, q: int| 0 <= p < q < order@.len() implies order@[p] != order@[q] by {
                    assert(lex_before(self.keys@, order@[p] as int, order@[q] as int));
                }
            }
            self.order = order;
            self.iteration = self.iteration + 1;
            self.phase = Phase::Spread;
            Action::CheckSpread { best: self.order[0], worst: self.order[self.dim] }
        }
    }

    /// Starts a search from the order keys of the initial simplex's scores, one
    /// per vertex.
    pub fn start(keys: Vec<u64>) -> (r: (NelderMead, Action))
        requires
            keys@.len() >= 2,
        ensures
            r.0.wf(),
            NelderMead::begins_iteration((keys@.len() - 1) as usize, keys@, 0, &r.0, r.1),
    {
        let n = keys.len();
        let mut order: Vec<usize> = Vec::new();
        let mut i: usize = 0;
        while i < n
            invariant
                i <= n,
                order@.len() == i,
                forall|p: int| 0 <= p < i ==> order@[p] == p,
            decreases n - i,
        {
            order.push(i);
            i = i + 1;
        }
        let mut s = NelderMead { dim: n - 1, keys, order, iteration: 0, phase: Phase::Spread };
        let a = s.begin_iteration();
        (s, a)
    }

    /// Advances the search by one event.
    pub fn step(&mut self, e: Event) -> (a: Action)
        requires
            old(self).wf(),
        ensures
            final(self).wf(),
            NelderMead::transition(old(self), e, final(self), a),
    {
        let dim = self.dim;
        let worst = self.order[dim];
        match (self.phase, e) {
            (Phase::Spread, Event::Spread { converged }) => {
                if converged {
                    let best = index_of_min(&self.keys);
                    self.phase = Phase::Finished { best };
                    Action::Finish { best }
                } else {
                    self.phase = Phase::Reflection;
                    Action::Evaluate { probe: Probe::Reflection, worst }
                }
            },
            (Phase::Reflection, Event::Scored { key }) => {
                let b = self.keys[self.order[0]];
                let sw = self.keys[self.order[dim - 1]];
                if key < sw && key >= b {
                    self.keys.set(worst, key);
                    self.phase = Phase::Replacing;
                    Action::Replace { vertex: worst, probe: Probe::Reflection }
                } else if key < b {
                    self.phase = Phase::Expansion { reflected: key };
                    Action::Evaluate { probe: Probe::Expansion, worst }
                } else {
                    self.phase = Phase::Contraction;
                    Action::Evaluate { probe: Probe::Contraction, worst }
                }
            },
            (Phase::Expansion { reflected }, Event::Scored { key }) => {
                self.phase = Phase::Replacing;
                if key < reflected {
                    self.keys.set(worst, key);
                    Action::Replace { vertex: worst, probe: Probe::Expansion }
                } else {
                    self.keys.set(worst, reflected);
                    Action::Replace { vertex: worst, probe: Probe::Reflection }
                }
            },
            (Phase::Contraction, Event::Scored { key }) => {
                if key < self.keys[worst] {
                    self.keys.set(worst, key);
                    self.phase = Phase::Replacing;
                    Action::Replace { vertex: worst, probe: Probe::Contraction }
                } else {
                    self.phase = Phase::Shrinking { pos: 1 };
                    Action::Shrink { vertex: self.order[1], toward: self.order[0] }
                }
            },
            (Phase::Shrinking { pos }, Event::Scored { key }) => {
                let v = self.order[pos];
                let ghost pre_keys = self.keys@;
                self.keys.set(v, key);
                proof {
                    assert forall|p: int, q: int| (p == 0 || pos + 1 <= p) && (q == 0 || pos + 1 <= q) && p <= q <= dim implies
                        self.keys@[#[trigger] self.order@[p] as int] <= self.keys@[#[trigger] self.order@[q] as int] by {
                        assert(self.order@[p] != v && self.order@[q] != v);
                        assert(pre_keys[self.order@[p] as int] <= pre_keys[self.order@[q] as int]);
                    }
                }
                if pos < dim {
                    self.phase = Phase::Shrinking { pos: pos + 1 };
                    Action::Shrink { vertex: self.order[pos + 1], toward: self.order[0] }
                } else {
                    self.begin_iteration()
                }
            },
            (Phase::Replacing, Event::Applied) => self.begin_iteration(),
            _ => Action::Unexpected,
        }
    }
}

} // verus!
