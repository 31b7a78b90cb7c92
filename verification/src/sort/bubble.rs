//! Bubble sort, recorded comparison by comparison.
//!
//! Pass number `p` (counted from 0) compares the neighbours `j`, `j + 1` for
//! `j` from 0 up to, but not including, `len - 1 - p`, exchanges them when the
//! left one is larger, and records a step after every comparison, whether or
//! not it exchanged anything.

use crate::sort::playback::Playback;
use crate::sort::{
    exchange, lemma_steps_view_push, lemma_swapped_keeps_values, nondecreasing, steps_view,
    swapped, Algorithm, SessionState, Sort, SortPointer, Step,
};
use vstd::prelude::*;

verus! {

/// `s` after its neighbours `j` and `j + 1` were compared and, when the left
/// one was larger, exchanged. Equal neighbours stay where they are.
pub open spec fn compared(s: Seq<u64>, j: int) -> Seq<u64> {
    if s[j] > s[j + 1] {
        swapped(s, j, j + 1)
    } else {
        s
    }
}

/// `s` after the first `k` comparisons of one pass over it.
pub open spec fn sweep(s: Seq<u64>, k: nat) -> Seq<u64>
    decreases k,
{
    if k == 0 {
        s
    } else {
        compared(sweep(s, (k - 1) as nat), k - 1)
    }
}

/// The steps that the first `k` comparisons of one pass over `s` record.
pub open spec fn sweep_trace(s: Seq<u64>, k: nat) -> Seq<Step> {
    Seq::new(k, |j: int| (sweep(s, (j + 1) as nat), SortPointer(j as usize, (j + 1) as usize)))
}

/// `s` after `i` whole passes; the pass that brings the count to `i` makes
/// `len - i` comparisons.
pub open spec fn passes(s: Seq<u64>, i: nat) -> Seq<u64>
    decreases i,
{
    if i == 0 {
        s
    } else {
        sweep(passes(s, (i - 1) as nat), (s.len() - i) as nat)
    }
}

/// The steps that the first `i` passes over `s` record.
pub open spec fn passes_trace(s: Seq<u64>, i: nat) -> Seq<Step>
    decreases i,
{
    if i == 0 {
        Seq::empty()
    } else {
        passes_trace(s, (i - 1) as nat) + sweep_trace(
            passes(s, (i - 1) as nat),
            (s.len() - i) as nat,
        )
    }
}

/// Everything bubble sort records on `s`: `len - 1` passes, none on an empty
/// input.
pub open spec fn bubble_trace(s: Seq<u64>) -> Seq<Step> {
    if s.len() == 0 {
        Seq::empty()
    } else {
        passes_trace(s, (s.len() - 1) as nat)
    }
}

/// The last `m` positions hold their final values: each is at least as large
/// as everything before it.
pub open spec fn settled(s: Seq<u64>, m: nat) -> bool {
    forall|a: int, b: int| 0 <= a <= b < s.len() && s.len() - m <= b ==> s[a] <= s[b]
}

/// Position `k` holds the largest of the first `k + 1` values.
pub open spec fn tops(s: Seq<u64>, k: int) -> bool {
    forall|a: int| 0 <= a <= k ==> s[a] <= s[k]
}

/// A pass keeps length and values, leaves what lies beyond its reach alone,
/// and carries the largest value it met to the position it stopped at.
pub proof fn lemma_sweep(s: Seq<u64>, k: nat)
    requires
        k < s.len(),
    ensures
        sweep(s, k).len() == s.len(),
        sweep(s, k).to_multiset() == s.to_multiset(),
        tops(sweep(s, k), k as int),
        forall|m: nat| k + m < s.len() && settled(s, m) ==> settled(sweep(s, k), m),
    decreases k,
{
    if k > 0 {
        let u = sweep(s, (k - 1) as nat);
        lemma_sweep(s, (k - 1) as nat);
        let v = compared(u, k - 1);
        assert(v == sweep(s, k));
        lemma_swapped_keeps_values(u, k - 1, k as int);
        assert forall|m: nat| k + m < s.len() && settled(s, m) implies settled(v, m) by {
            assert(settled(u, m));
            assert forall|a: int, b: int| 0 <= a <= b < v.len() && v.len() - m <= b implies v[a]
                <= v[b] by {
                assert(v[b] == u[b]);
                if a == k - 1 {
                    assert(u[k as int] <= u[b] && u[k - 1] <= u[b]);
                } else if a == k {
                    assert(u[k as int] <= u[b] && u[k - 1] <= u[b]);
                } else {
                    assert(v[a] == u[a]);
                }
            }
        }
    }
}

/// After `i` passes the array still has its length and its values, and its
/// last `i` positions are settled.
pub proof fn lemma_passes(s: Seq<u64>, i: nat)
    requires
        i < s.len(),
    ensures
        passes(s, i).len() == s.len(),
        passes(s, i).to_multiset() == s.to_multiset(),
        settled(passes(s, i), i),
    decreases i,
{
    if i > 0 {
        let p = passes(s, (i - 1) as nat);
        lemma_passes(s, (i - 1) as nat);
        let k = (s.len() - i) as nat;
        lemma_sweep(p, k);
        let q = sweep(p, k);
        assert(q == passes(s, i));
        assert(settled(q, (i - 1) as nat));
        assert(tops(q, k as int));
        assert forall|a: int, b: int| 0 <= a <= b < q.len() && q.len() - i <= b implies q[a]
            <= q[b] by {
            if b == k {
            } else {
                assert(q.len() - (i - 1) <= b);
            }
        }
    }
}

/// The first `i` passes record `i * (2 * len - i - 1) / 2` steps.
pub proof fn lemma_passes_trace_len(s: Seq<u64>, i: nat)
    requires
        i <= s.len(),
    ensures
        2 * passes_trace(s, i).len() == i * (2 * s.len() - i - 1),
    decreases i,
{
    let n = s.len() as int;
    if i > 0 {
        lemma_passes_trace_len(s, (i - 1) as nat);
        let i = i as int;
        assert(passes_trace(s, i as nat).len() == passes_trace(s, (i - 1) as nat).len() + (n - i));
        assert((i - 1) * (2 * n - (i - 1) - 1) + 2 * (n - i) == i * (2 * n - i - 1))
            by (nonlinear_arith);
    } else {
        assert(0 * (2 * n - 0 - 1) == 0) by (nonlinear_arith);
    }
}

/// Bubble sort records `len * (len - 1) / 2` steps on every input, sorted or
/// not: each comparison is a step.
pub proof fn lemma_bubble_trace_len(s: Seq<u64>)
    ensures
        bubble_trace(s).len() == s.len() * (s.len() - 1) / 2,
{
    let n = s.len() as int;
    if n > 0 {
        lemma_passes_trace_len(s, (n - 1) as nat);
        assert((n - 1) * (2 * n - (n - 1) - 1) == n * (n - 1)) by (nonlinear_arith);
    }
}

/// Every step among the first `i` passes shows all the values of `s`, and
/// points at two neighbouring positions of the array.
pub proof fn lemma_passes_trace_steps(s: Seq<u64>, i: nat, t: int)
    requires
        i < s.len() <= usize::MAX,
        0 <= t < passes_trace(s, i).len(),
    ensures
        passes_trace(s, i)[t].0.len() == s.len(),
        passes_trace(s, i)[t].0.to_multiset() == s.to_multiset(),
        passes_trace(s, i)[t].1.0 + 1 == passes_trace(s, i)[t].1.1 < s.len(),
    decreases i,
{
    if i > 0 {
        let before = passes_trace(s, (i - 1) as nat);
        if t < before.len() {
            lemma_passes_trace_steps(s, (i - 1) as nat, t);
        } else {
            let p = passes(s, (i - 1) as nat);
            let j = t - before.len();
            lemma_passes(s, (i - 1) as nat);
            lemma_sweep(p, (j + 1) as nat);
        }
    }
}

/// Every step of the trace shows all the values of `s`, and points at two
/// neighbouring positions of the array.
pub proof fn lemma_bubble_trace_steps(s: Seq<u64>, t: int)
    requires
        s.len() <= usize::MAX,
        0 <= t < bubble_trace(s).len(),
    ensures
        bubble_trace(s)[t].0.len() == s.len(),
        bubble_trace(s)[t].0.to_multiset() == s.to_multiset(),
        bubble_trace(s)[t].1.0 + 1 == bubble_trace(s)[t].1.1 < s.len(),
{
    lemma_passes_trace_steps(s, (s.len() - 1) as nat, t);
}

/// With fewer than two values nothing is recorded; otherwise the last step
/// shows the array in order.
pub proof fn lemma_bubble_trace_sorts(s: Seq<u64>)
    ensures
        s.len() <= 1 ==> bubble_trace(s).len() == 0 && nondecreasing(s),
        s.len() >= 2 ==> bubble_trace(s).len() > 0 && nondecreasing(bubble_trace(s).last().0),
{
    let n = s.len();
    if n >= 2 {
        let i = (n - 1) as nat;
        let p = passes(s, (i - 1) as nat);
        lemma_passes(s, i);
        let q = passes(s, i);
        assert(sweep_trace(p, 1).last().0 == q);
        assert(bubble_trace(s).last().0 == q);
        assert forall|a: int, b: int| 0 <= a <= b < q.len() implies q[a] <= q[b] by {
            if b == 0 {
            }
        }
    } else if n == 1 {
        assert(passes_trace(s, 0).len() == 0);
    }
}

/// Runs bubble sort on a copy of `input` and returns what it recorded.
pub fn create_iterator(input: &Vec<u64>) -> (steps: Vec<(Vec<u64>, SortPointer)>)
    ensures
        steps_view(steps@) == bubble_trace(input@),
        steps@.len() == input@.len() * (input@.len() - 1) / 2,
        forall|t: int|
            0 <= t < steps@.len() ==> {
                &&& (#[trigger] steps@[t]).0@.len() == input@.len()
                &&& steps@[t].0@.to_multiset() == input@.to_multiset()
                &&& steps@[t].1.0 < input@.len()
                &&& steps@[t].1.1 < input@.len()
            },
        steps@.len() > 0 ==> nondecreasing(steps@.last().0@),
{
    let mut work: Vec<u64> = input.clone();
    let mut steps: Vec<(Vec<u64>, SortPointer)> = Vec::new();
    let n: usize = work.len();
    assert(steps_view(steps@) =~= Seq::<Step>::empty());
    if n == 0 {
        return steps;
    }
    for i in 0..n - 1
        invariant
            n == input.len(),
            n >= 1,
            work@ == passes(input@, i as nat),
            steps_view(steps@) == passes_trace(input@, i as nat),
    {
        let ghost start = work@;
        proof {
            lemma_passes(input@, i as nat);
        }
        for j in 0..n - 1 - i
            invariant
                n == input.len(),
                i < n - 1,
                start.len() == n,
                work@ == sweep(start, j as nat),
                steps_view(steps@) == passes_trace(input@, i as nat) + sweep_trace(start, j as nat),
        {
            proof {
                lemma_sweep(start, j as nat);
                lemma_sweep(start, (j + 1) as nat);
            }
            if work[j] > work[j + 1] {
                exchange(&mut work, j, j + 1);
            }
            let step: (Vec<u64>, SortPointer) = (work.clone(), SortPointer(j, j + 1));
            proof {
                lemma_steps_view_push(steps@, step);
                assert(sweep_trace(start, (j + 1) as nat) =~= sweep_trace(start, j as nat).push(
                    (work@, step.1),
                ));
                assert(passes_trace(input@, i as nat) + sweep_trace(start, (j + 1) as nat)
                    =~= (passes_trace(input@, i as nat) + sweep_trace(start, j as nat)).push(
                    (work@, step.1),
                ));
            }
            steps.push(step);
        }
    }
    proof {
        lemma_bubble_trace_len(input@);
        lemma_bubble_trace_sorts(input@);
        assert forall|t: int| 0 <= t < steps@.len() implies {
            &&& (#[trigger] steps@[t]).0@.len() == input@.len()
            &&& steps@[t].0@.to_multiset() == input@.to_multiset()
            &&& steps@[t].1.0 < input@.len()
            &&& steps@[t].1.1 < input@.len()
        } by {
            lemma_bubble_trace_steps(input@, t);
            assert(steps_view(steps@)[t] == (steps@[t].0@, steps@[t].1));
        }
        if steps@.len() > 0 {
            assert(steps_view(steps@).last() == (steps@.last().0@, steps@.last().1));
        }
    }
    steps
}

/// A playback session over bubble sort.
pub struct BubbleSort {
    session: Playback,
}

impl BubbleSort {
    /// The session replays bubble sort and nothing else.
    #[verifier::type_invariant]
    closed spec fn valid(&self) -> bool {
        self.session@.algorithm == Algorithm::Bubble
    }

    /// Records bubble sort on `input` and starts before the first step,
    /// paused.
    pub fn new(input: Vec<u64>) -> (r: BubbleSort)
        ensures
            r.state().wf(),
            r.state() == SessionState::fresh(Algorithm::Bubble, input@),
    {
        BubbleSort { session: Playback::new(Algorithm::Bubble, input) }
    }
}

impl Sort for BubbleSort {
    closed spec fn state(&self) -> SessionState {
        self.session@
    }

    fn items(&self) -> (r: &Vec<u64>) {
        self.session.items()
    }

    fn step(&mut self) -> (r: (&Vec<u64>, &SortPointer)) {
        proof {
            use_type_invariant(&*self);
        }
        self.session.step()
    }

    fn is_active(&self) -> (r: bool) {
        self.session.is_active()
    }

    fn is_sorted(&self) -> (r: bool) {
        self.session.is_sorted()
    }

    fn toggle_sort(&mut self) {
        proof {
            use_type_invariant(&*self);
        }
        let active = self.session.is_active();
        self.session.set_active(!active);
    }

    fn activate_sort(&mut self) {
        proof {
            use_type_invariant(&*self);
        }
        self.session.set_active(true);
    }

    fn deactivate_sort(&mut self) {
        proof {
            use_type_invariant(&*self);
        }
        self.session.set_active(false);
    }

    fn get_pointer(&self) -> (r: &SortPointer) {
        self.session.get_pointer()
    }

    fn get_name(&self) -> (r: String)
        ensures
            r@ == "Bubble Sort"@,
    {
        proof {
            use_type_invariant(self);
        }
        self.session.get_name()
    }

    fn get_current_step(&self) -> (r: usize) {
        self.session.get_current_step()
    }

    fn reset(&mut self, items: Vec<u64>) {
        proof {
            use_type_invariant(&*self);
        }
        self.session = Playback::new(Algorithm::Bubble, items);
    }
}

} // verus!
