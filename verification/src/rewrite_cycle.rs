//! A driver that applies an ordered sequence of tree rewriters in cycles
//! until one full cycle makes no change or a cycle cap is reached.
//!
//! The result of one optimization rule can uncover further opportunities for
//! other rules, so a sequence of rewriters is run in multiple passes. The
//! driver stops as soon as every rewriter in a row, for one whole cycle,
//! reports that it left the tree unchanged.

use vstd::prelude::*;

verus! {

use vstd::arithmetic::mul::{lemma_mul_inequality, lemma_mul_is_commutative};

/// The default maximum number of completed cycles to run before terminating
/// the rewrite loop; override it with [`RewriteCycle::with_max_cycles`].
pub const DEFAULT_MAX_CYCLES: usize = 3;

/// An ordered sequence of tree rewriters, applied in index order within each
/// cycle. Implementors hold the rewriters themselves; the driver only asks
/// for their number and applies them one at a time.
pub trait RewriterSequence {
    /// The tree type being rewritten.
    type Node;

    /// The error type a rewriter may surface; it short-circuits the cycle.
    type Error;

    /// How many rewriters one cycle applies.
    spec fn spec_count(&self) -> usize;

    /// True of a sequence whose rewriters never report a change. The driver
    /// guarantees that such a sequence stops after exactly one cycle with the
    /// input returned unchanged.
    spec fn spec_never_changes(&self) -> bool;

    /// The number of rewriters in one cycle.
    fn count(&self) -> (n: usize)
        ensures
            n == self.spec_count(),
    ;

    /// Applies the rewriter at `index` to `node`, returning the rewritten
    /// node together with the authoritative changed-or-not signal. A rewriter
    /// that reports "no change" must hand the node back unchanged.
    fn rewrite(&mut self, index: usize, node: Self::Node) -> (r: Result<(Self::Node, bool), Self::Error>)
        ensures
            final(self).spec_count() == old(self).spec_count(),
            final(self).spec_never_changes() == old(self).spec_never_changes(),
            (match r {
                Ok(p) => {
                    &&& (!p.1 ==> p.0 == node)
                    &&& (old(self).spec_never_changes() ==> !p.1)
                },
                Err(_) => true,
            }),
    ;
}

/// A builder for running a rewrite cycle: a multi-pass loop over a rewriter
/// sequence that stops at a fixpoint or after [`RewriteCycle::max_cycles`]
/// completed cycles.
#[derive(Debug)]
pub struct RewriteCycle {
    max_cycles: usize,
}

impl Default for RewriteCycle {
    fn default() -> (r: RewriteCycle)
        ensures
            r.spec_max_cycles() == DEFAULT_MAX_CYCLES,
    {
        RewriteCycle::new()
    }
}

impl RewriteCycle {
    /// The configured cycle cap.
    pub closed spec fn spec_max_cycles(self) -> usize {
        self.max_cycles
    }

    /// Creates a driver with the default cycle cap.
    pub fn new() -> (r: RewriteCycle)
        ensures
            r.spec_max_cycles() == DEFAULT_MAX_CYCLES,
    {
        RewriteCycle { max_cycles: DEFAULT_MAX_CYCLES }
    }

    /// Sets the maximum number of completed cycles to run before terminating
    /// the rewrite loop.
    pub fn with_max_cycles(self, max_cycles: usize) -> (r: RewriteCycle)
        ensures
            r.spec_max_cycles() == max_cycles,
    {
        RewriteCycle { max_cycles }
    }

    /// The maximum number of completed cycles to run before terminating the
    /// rewrite loop.
    pub fn max_cycles(&self) -> (r: usize)
        ensures
            r == self.spec_max_cycles(),
    {
        self.max_cycles
    }

    /// Runs the rewrite cycle on `node`, applying every rewriter of the
    /// sequence once per cycle, until a whole cycle reports no change or
    /// `max_cycles` cycles have completed. The first rewriter error is
    /// surfaced as is.
    ///
    /// On success the result carries the bookkeeping of the run: the cycle
    /// length equals the sequence's size, at least one and at most
    /// `max_cycles` cycles' worth of rewrites ran, and a sequence that never
    /// reports a change gets exactly one cycle and the input back unchanged.
    /// A cap of zero returns the input untouched without calling anything.
    #[verifier::loop_isolation(false)]
    pub fn each_cycle<S: RewriterSequence>(&self, node: S::Node, rewriters: &mut S) -> (res: Result<
        (S::Node, RewriteCycleInfo),
        S::Error,
    >)
        requires
            self.spec_max_cycles() * old(rewriters).spec_count() < usize::MAX,
        ensures
            final(rewriters).spec_count() == old(rewriters).spec_count(),
            final(rewriters).spec_never_changes() == old(rewriters).spec_never_changes(),
            self.spec_max_cycles() == 0 ==> res is Ok,
            old(rewriters).spec_count() == 0 ==> res is Ok,
            (match res {
                Ok(p) => {
                    &&& (self.spec_max_cycles() == 0 ==> p.0 == node
                        && p.1.spec_total_iterations() == 0 && p.1.spec_cycle_length() == 0)
                    &&& (self.spec_max_cycles() > 0 ==> {
                        &&& p.1.spec_cycle_length() == old(rewriters).spec_count()
                        &&& p.1.spec_cycle_length() <= p.1.spec_total_iterations()
                        &&& p.1.spec_total_iterations()
                            <= self.spec_max_cycles() * p.1.spec_cycle_length()
                        &&& (old(rewriters).spec_never_changes() ==> p.0 == node
                            && p.1.spec_total_iterations() == p.1.spec_cycle_length())
                    })
                },
                Err(_) => true,
            }),
    {
        let ghost node0 = node;
        let ghost c0 = rewriters.spec_count();
        let ghost nv0 = rewriters.spec_never_changes();
        let mut state = RewriteCycleState::new(node);
        if self.max_cycles == 0 {
            return Ok(state.finish());
        }
        let n = rewriters.count();
        proof {
            lemma_mul_inequality(1, self.max_cycles as int, n as int);
        }
        // First cycle: the cycle length is still unrecorded, so no rewrite
        // can end the loop early.
        let mut j: usize = 0;
        while j < n
            invariant
                j <= n,
                n == c0,
                self.spec_max_cycles() >= 1,
                self.spec_max_cycles() * c0 < usize::MAX,
                n as int <= self.spec_max_cycles() * c0,
                rewriters.spec_count() == c0,
                rewriters.spec_never_changes() == nv0,
                state.wf(),
                state.spec_cycle_length() is None,
                state.spec_rewrite_count() == j,
                nv0 ==> state.spec_consecutive_unchanged() == j && state.spec_node() == node0,
            decreases n - j,
        {
            match state.rewrite(rewriters, j) {
                Ok(p) => {
                    state = p.0;
                },
                Err(e) => {
                    return Err(e);
                },
            }
            j += 1;
        }
        state.record_cycle_length();
        if state.is_done() {
            return Ok(state.finish());
        }
        // Remaining cycles: any rewrite may now finish the run by completing
        // an unchanged window as long as one whole cycle.
        let mut c: usize = 1;
        while c < self.max_cycles
            invariant
                1 <= c <= self.spec_max_cycles(),
                n >= 1,
                n == c0,
                self.spec_max_cycles() * c0 < usize::MAX,
                rewriters.spec_count() == c0,
                rewriters.spec_never_changes() == nv0,
                !nv0,
                state.wf(),
                state.spec_cycle_length() == Some(n),
                n <= state.spec_rewrite_count(),
                state.spec_rewrite_count() as int <= c * (n as int),
                !state.spec_is_done(),
            decreases self.spec_max_cycles() - c,
        {
            let mut j: usize = 0;
            while j < n
                invariant
                    j <= n,
                    n == c0,
                    1 <= c < self.spec_max_cycles(),
                    self.spec_max_cycles() * c0 < usize::MAX,
                    rewriters.spec_count() == c0,
                    rewriters.spec_never_changes() == nv0,
                    state.wf(),
                    state.spec_cycle_length() == Some(n),
                    n <= state.spec_rewrite_count(),
                    state.spec_rewrite_count() as int <= c * (n as int) + j,
                    !state.spec_is_done(),
                decreases n - j,
            {
                proof {
                    lemma_mul_inequality(c as int + 1, self.spec_max_cycles() as int, n as int);
                    assert((c as int + 1) * (n as int) == c as int * (n as int) + n as int)
                        by (nonlinear_arith);
                }
                match state.rewrite(rewriters, j) {
                    Ok(p) => {
                        state = p.0;
                        if p.1 {
                            return Ok(state.finish());
                        }
                    },
                    Err(e) => {
                        return Err(e);
                    },
                }
                j += 1;
            }
            proof {
                assert((c as int + 1) * (n as int) == c as int * (n as int) + n as int)
                    by (nonlinear_arith);
            }
            c += 1;
        }
        proof {
            lemma_mul_inequality(c as int, self.spec_max_cycles() as int, n as int);
        }
        Ok(state.finish())
    }
}

/// Iteration state of a rewrite cycle: the node being rewritten together
/// with the counters that decide when the loop stops.
#[derive(Debug)]
pub struct RewriteCycleState<Node> {
    node: Node,
    consecutive_unchanged_count: usize,
    rewrite_count: usize,
    cycle_length: Option<usize>,
}

impl<Node> RewriteCycleState<Node> {
    /// The node in its current state of rewriting.
    pub closed spec fn spec_node(self) -> Node {
        self.node
    }

    /// The number of consecutive rewrites that reported no change.
    pub closed spec fn spec_consecutive_unchanged(self) -> usize {
        self.consecutive_unchanged_count
    }

    /// The total number of rewrites applied so far.
    pub closed spec fn spec_rewrite_count(self) -> usize {
        self.rewrite_count
    }

    /// The recorded cycle length; `None` until the first cycle completes.
    pub closed spec fn spec_cycle_length(self) -> Option<usize> {
        self.cycle_length
    }

    /// The unchanged window never exceeds the rewrites performed.
    pub open spec fn wf(self) -> bool {
        self.spec_consecutive_unchanged() <= self.spec_rewrite_count()
    }

    /// The loop is done once a whole cycle's worth of consecutive rewrites
    /// reported no change; before the first cycle completes it never is.
    pub open spec fn spec_is_done(self) -> bool {
        match self.spec_cycle_length() {
            Some(len) => self.spec_consecutive_unchanged() >= len,
            None => false,
        }
    }

    /// Starts the bookkeeping for a fresh run on `node`.
    pub fn new(node: Node) -> (r: Self)
        ensures
            r.spec_node() == node,
            r.spec_consecutive_unchanged() == 0,
            r.spec_rewrite_count() == 0,
            r.spec_cycle_length() is None,
            r.wf(),
    {
        RewriteCycleState { node, cycle_length: None, consecutive_unchanged_count: 0, rewrite_count: 0 }
    }

    /// Records the cycle length as the number of rewrites made so far; called
    /// once, when the first cycle ends.
    pub fn record_cycle_length(&mut self)
        ensures
            final(self).spec_cycle_length() == Some(old(self).spec_rewrite_count()),
            final(self).spec_node() == old(self).spec_node(),
            final(self).spec_consecutive_unchanged() == old(self).spec_consecutive_unchanged(),
            final(self).spec_rewrite_count() == old(self).spec_rewrite_count(),
    {
        self.cycle_length = Some(self.rewrite_count);
    }

    /// Whether a whole cycle's worth of consecutive rewrites reported no
    /// change.
    pub fn is_done(&self) -> (r: bool)
        ensures
            r == self.spec_is_done(),
    {
        match self.cycle_length {
            Some(len) => self.consecutive_unchanged_count >= len,
            None => false,
        }
    }

    /// Consumes the state, yielding the node and the run's bookkeeping. An
    /// unrecorded cycle length (a run cut short before the first cycle
    /// ended) is reported as the rewrites made.
    pub fn finish(self) -> (r: (Node, RewriteCycleInfo))
        ensures
            r.0 == self.spec_node(),
            r.1.spec_total_iterations() == self.spec_rewrite_count(),
            r.1.spec_cycle_length() == (match self.spec_cycle_length() {
                Some(len) => len,
                None => self.spec_rewrite_count(),
            }),
    {
        let len = match self.cycle_length {
            Some(len) => len,
            None => self.rewrite_count,
        };
        (self.node, RewriteCycleInfo { cycle_length: len, total_iterations: self.rewrite_count })
    }

    /// The bookkeeping step: what the state becomes once one rewrite has
    /// returned `node` with the given changed-flag. A change resets the
    /// unchanged window; no change lengthens it by one. This is the whole
    /// effect of [`Self::apply_rewrite`], and of [`Self::rewrite`] on
    /// success, with `node` and `transformed` what the rewriter returned.
    pub open spec fn spec_step(pre: Self, post: Self, node: Node, transformed: bool) -> bool {
        &&& post.spec_node() == node
        &&& post.spec_cycle_length() == pre.spec_cycle_length()
        &&& post.spec_rewrite_count() == pre.spec_rewrite_count() + 1
        &&& post.spec_consecutive_unchanged() == (if transformed {
            0int
        } else {
            pre.spec_consecutive_unchanged() + 1
        })
    }

    /// Records the outcome of one rewrite the caller made itself: the node
    /// that came back and whether the rewriter reported a change. The next
    /// state is fixed exactly for each value of `transformed`; the returned
    /// flag says whether the run is done.
    pub fn apply_rewrite(self, node: Node, transformed: bool) -> (r: (Self, bool))
        requires
            self.wf(),
            self.spec_rewrite_count() < usize::MAX,
        ensures
            r.0.wf(),
            RewriteCycleState::spec_step(self, r.0, node, transformed),
            r.1 == r.0.spec_is_done(),
    {
        let RewriteCycleState { node: _, consecutive_unchanged_count, rewrite_count, cycle_length } = self;
        let carrier = RewriteCycleState {
            node,
            consecutive_unchanged_count,
            rewrite_count,
            cycle_length,
        };
        carrier.apply_rewrite_in_place(transformed)
    }

    /// Takes the step over the node already stored; shared by the two ways
    /// of recording a rewrite.
    fn apply_rewrite_in_place(self, transformed: bool) -> (r: (Self, bool))
        requires
            self.wf(),
            self.spec_rewrite_count() < usize::MAX,
        ensures
            r.0.wf(),
            r.0.spec_node() == self.spec_node(),
            r.0.spec_cycle_length() == self.spec_cycle_length(),
            r.0.spec_rewrite_count() == self.spec_rewrite_count() + 1,
            r.0.spec_consecutive_unchanged() == (if transformed {
                0int
            } else {
                self.spec_consecutive_unchanged() + 1
            }),
            r.1 == r.0.spec_is_done(),
    {
        let RewriteCycleState { node, consecutive_unchanged_count, rewrite_count, cycle_length } = self;
        let next = RewriteCycleState {
            node,
            consecutive_unchanged_count: if transformed {
                0
            } else {
                consecutive_unchanged_count + 1
            },
            rewrite_count: rewrite_count + 1,
            cycle_length,
        };
        let done = next.is_done();
        (next, done)
    }

    /// Applies one rewriter of the sequence to the node and updates the
    /// counters with the bookkeeping step of [`Self::spec_step`]: on success
    /// the next state is the step for the node and changed-flag the rewriter
    /// returned. The returned flag says whether the run is done.
    pub fn rewrite<S: RewriterSequence<Node = Node>>(self, rewriters: &mut S, index: usize) -> (r: Result<
        (Self, bool),
        S::Error,
    >)
        requires
            self.wf(),
            self.spec_rewrite_count() < usize::MAX,
        ensures
            final(rewriters).spec_count() == old(rewriters).spec_count(),
            final(rewriters).spec_never_changes() == old(rewriters).spec_never_changes(),
            (match r {
                Ok(p) => {
                    &&& p.0.wf()
                    &&& p.1 == p.0.spec_is_done()
                    &&& exists|t: bool|
                        RewriteCycleState::spec_step(self, p.0, p.0.spec_node(), t) && (!t
                            ==> p.0.spec_node() == self.spec_node()) && (old(
                            rewriters,
                        ).spec_never_changes() ==> !t)
                },
                Err(_) => true,
            }),
    {
        let RewriteCycleState { node, consecutive_unchanged_count, rewrite_count, cycle_length } = self;
        match rewriters.rewrite(index, node) {
            Err(e) => Err(e),
            Ok(p) => {
                let (node, transformed) = p;
                let carrier = RewriteCycleState {
                    node,
                    consecutive_unchanged_count,
                    rewrite_count,
                    cycle_length,
                };
                let ghost t = transformed;
                let (next, done) = carrier.apply_rewrite_in_place(transformed);
                proof {
                    assert(RewriteCycleState::spec_step(self, next, next.spec_node(), t));
                }
                Ok((next, done))
            },
        }
    }
}

/// Information about a finished rewrite cycle: the total number of rewrite
/// calls and the number of calls within a single cycle.
#[derive(Debug, Clone, Copy)]
pub struct RewriteCycleInfo {
    total_iterations: usize,
    cycle_length: usize,
}

impl RewriteCycleInfo {
    /// The total number of rewrite calls made.
    pub closed spec fn spec_total_iterations(self) -> usize {
        self.total_iterations
    }

    /// The number of rewrite calls within a single cycle.
    pub closed spec fn spec_cycle_length(self) -> usize {
        self.cycle_length
    }

    /// The number of fully completed cycles.
    pub open spec fn spec_completed_cycles(self) -> int {
        self.spec_total_iterations() as int / self.spec_cycle_length() as int
    }

    /// The total number of fully completed cycles.
    pub fn completed_cycles(&self) -> (r: usize)
        requires
            self.spec_cycle_length() > 0,
        ensures
            r == self.spec_completed_cycles(),
    {
        self.total_iterations / self.cycle_length
    }

    /// The total number of rewrite calls.
    pub fn total_iterations(&self) -> (r: usize)
        ensures
            r == self.spec_total_iterations(),
    {
        self.total_iterations
    }

    /// The number of rewrite calls within a single cycle.
    pub fn cycle_length(&self) -> (r: usize)
        ensures
            r == self.spec_cycle_length(),
    {
        self.cycle_length
    }
}

/// Rewrite-cycle bound: under the iteration budget that
/// [`RewriteCycle::each_cycle`] guarantees, the completed-cycle count never
/// exceeds the cycle cap, and the total iterations split into completed
/// cycles plus a remainder shorter than one cycle.
pub proof fn lemma_rewrite_cycle_bounds(info: RewriteCycleInfo, max_cycles: usize)
    requires
        info.spec_cycle_length() > 0,
        info.spec_total_iterations() <= max_cycles * info.spec_cycle_length(),
    ensures
        info.spec_completed_cycles() <= max_cycles,
        info.spec_cycle_length() <= info.spec_total_iterations() ==> info.spec_completed_cycles()
            >= 1,
        info.spec_total_iterations() == info.spec_completed_cycles() * info.spec_cycle_length()
            + info.spec_total_iterations() as int % info.spec_cycle_length() as int,
        0 <= info.spec_total_iterations() as int % info.spec_cycle_length() as int,
        (info.spec_total_iterations() as int % info.spec_cycle_length() as int)
            < info.spec_cycle_length() as int,
{
    let t = info.spec_total_iterations() as int;
    let len = info.spec_cycle_length() as int;
    vstd::arithmetic::div_mod::lemma_fundamental_div_mod(t, len);
    lemma_mul_is_commutative(len, t / len);
    vstd::arithmetic::div_mod::lemma_div_is_ordered(t, max_cycles * len, len);
    vstd::arithmetic::div_mod::lemma_div_multiples_vanish(max_cycles as int, len);
    lemma_mul_is_commutative(max_cycles as int, len);
    if len <= t {
        vstd::arithmetic::div_mod::lemma_div_is_ordered(len, t, len);
        vstd::arithmetic::div_mod::lemma_div_multiples_vanish(1, len);
        lemma_mul_is_commutative(1, len);
    }
}

/// Rewrite-cycle fixpoint: a run that stops after exactly one cycle's worth
/// of rewrites — as every run of a never-changing sequence does — counts
/// exactly one completed cycle.
pub proof fn lemma_rewrite_cycle_fixpoint(info: RewriteCycleInfo)
    requires
        info.spec_cycle_length() > 0,
        info.spec_total_iterations() == info.spec_cycle_length(),
    ensures
        info.spec_completed_cycles() == 1,
{
    let len = info.spec_cycle_length() as int;
    vstd::arithmetic::div_mod::lemma_div_multiples_vanish(1, len);
    lemma_mul_is_commutative(1, len);
}

} // verus!
