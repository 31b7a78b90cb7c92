//! Selection sort, recorded comparison by comparison.
//!
//! The round for position `i` scans the positions after it for the least
//! value from `i` on, recording a step after every comparison, whether or not
//! it found a smaller value.  If the least value is not at `i` already, the
//! two are exchanged and one more step is recorded.

use crate::sort::playback::Playback;
use crate::sort::{
    exchange, lemma_steps_view_push, lemma_swapped_keeps_values, nondecreasing, steps_view,
    swapped, Algorithm, SessionState, Sort, SortPointer, Step,
};
use vstd::prelude::*;

verus! {

/// The position of the least value among positions `i` to `j` of `s`; the
/// first such position where that value occurs more than once.
pub open spec fn least_from(s: Seq<u64>, i: nat, j: nat) -> nat
    decreases j,
{
    if j <= i {
        i
    } else {
        let m = least_from(s, i, (j - 1) as nat);
        if s[j as int] < s[m as int] {
            j
        } else {
            m
        }
    }
}

/// The steps that the first `k` comparisons of the round for position `i`
/// record: the array as it is, and the two positions compared.
pub open spec fn scan_trace(s: Seq<u64>, i: nat, k: nat) -> Seq<Step> {
    Seq::new(k, |t: int| (s, SortPointer(i as usize, (i + 1 + t) as usize)))
}

/// `s` after the round for position `i`.
pub open spec fn placed(s: Seq<u64>, i: nat) -> Seq<u64> {
    let m = least_from(s, i, (s.len() - 1) as nat);
    if m != i {
        swapped(s, i as int, m as int)
    } else {
        s
    }
}

/// The steps that the round for position `i` records on `s`.
pub open spec fn round_trace(s: Seq<u64>, i: nat) -> Seq<Step> {
    let m = least_from(s, i, (s.len() - 1) as nat);
    let scan = scan_trace(s, i, (s.len() - 1 - i) as nat);
    if m != i {
        scan.push((swapped(s, i as int, m as int), SortPointer(i as usize, m as usize)))
    } else {
        scan
    }
}

/// `s` after the rounds for positions 0 up to, but not including, `i`.
pub open spec fn selected(s: Seq<u64>, i: nat) -> Seq<u64>
    decreases i,
{
    if i == 0 {
        s
    } else {
        placed(selected(s, (i - 1) as nat), (i - 1) as nat)
    }
}

/// The steps that the rounds for positions 0 up to, but not including, `i`
/// record.
pub open spec fn selected_trace(s: Seq<u64>, i: nat) -> Seq<Step>
    decreases i,
{
    if i == 0 {
        Seq::empty()
    } else {
        selected_trace(s, (i - 1) as nat) + round_trace(
            selected(s, (i - 1) as nat),
            (i - 1) as nat,
        )
    }
}

/// Everything selection sort records on `s`: one round for every position.
pub open spec fn selection_trace(s: Seq<u64>) -> Seq<Step> {
    selected_trace(s, s.len())
}

/// The first `m` positions hold their final values: each is no larger than
/// anything after it.
pub open spec fn settled_front(s: Seq<u64>, m: int) -> bool {
    forall|a: int, b: int| 0 <= a <= b < s.len() && a < m ==> s[a] <= s[b]
}

/// `least_from` names a position between `i` and `j` whose value none of the
/// values at positions `i` to `j` is smaller than.
pub proof fn lemma_least_from(s: Seq<u64>, i: nat, j: nat)
    requires
        i <= j < s.len(),
    ensures
        i <= least_from(s, i, j) <= j,
        forall|x: int| i <= x <= j ==> s[least_from(s, i, j) as int] <= #[trigger] s[x],
    decreases j,
{
    if j > i {
        lemma_least_from(s, i, (j - 1) as nat);
    }
}

/// A round keeps length and values and settles one more position at the
/// front.
pub proof fn lemma_placed(s: Seq<u64>, i: nat)
    requires
        i < s.len(),
    ensures
        placed(s, i).len() == s.len(),
        placed(s, i).to_multiset() == s.to_multiset(),
        settled_front(s, i as int) ==> settled_front(placed(s, i), i as int + 1),
        round_trace(s, i).len() == 0 ==> placed(s, i) == s,
        round_trace(s, i).len() > 0 ==> round_trace(s, i).last().0 == placed(s, i),
{
    let m = least_from(s, i, (s.len() - 1) as nat);
    lemma_least_from(s, i, (s.len() - 1) as nat);
    lemma_swapped_keeps_values(s, i as int, m as int);
    let p = placed(s, i);
    if settled_front(s, i as int) {
        assert forall|a: int, b: int| 0 <= a <= b < p.len() && a < i + 1 implies p[a] <= p[b] by {
            if a < i {
                assert(s[a] <= s[b] && s[a] <= s[m as int] && s[a] <= s[i as int]);
            } else {
                assert(p[a] == s[m as int]);
                assert(s[m as int] <= s[b] && s[m as int] <= s[i as int]);
            }
        }
    }
}

/// Every step of a round shows all the values of `s`, and points at `i` and
/// at a position after it.
pub proof fn lemma_round_trace_steps(s: Seq<u64>, i: nat, t: int)
    requires
        i < s.len() <= usize::MAX,
        0 <= t < round_trace(s, i).len(),
    ensures
        round_trace(s, i)[t].0.len() == s.len(),
        round_trace(s, i)[t].0.to_multiset() == s.to_multiset(),
        round_trace(s, i)[t].1.0 == i,
        i < round_trace(s, i)[t].1.1 < s.len(),
{
    let m = least_from(s, i, (s.len() - 1) as nat);
    lemma_least_from(s, i, (s.len() - 1) as nat);
    lemma_swapped_keeps_values(s, i as int, m as int);
}

/// After `i` rounds the array still has its length and its values, its first
/// `i` positions are settled, and what was recorded ends with the array as
/// it now is.
pub proof fn lemma_selected(s: Seq<u64>, i: nat)
    requires
        i <= s.len(),
    ensures
        selected(s, i).len() == s.len(),
        selected(s, i).to_multiset() == s.to_multiset(),
        settled_front(selected(s, i), i as int),
        selected_trace(s, i).len() == 0 ==> selected(s, i) == s,
        selected_trace(s, i).len() > 0 ==> selected_trace(s, i).last().0 == selected(s, i),
    decreases i,
{
    if i > 0 {
        let p = selected(s, (i - 1) as nat);
        lemma_selected(s, (i - 1) as nat);
        lemma_placed(p, (i - 1) as nat);
        let before = selected_trace(s, (i - 1) as nat);
        let now = round_trace(p, (i - 1) as nat);
        if now.len() > 0 {
            assert((before + now).last() == now.last());
        } else {
            assert(before + now =~= before);
        }
    }
}

/// Every step among the first `i` rounds shows all the values of `s`, and
/// points at a position of the array and at one after it.
pub proof fn lemma_selected_trace_steps(s: Seq<u64>, i: nat, t: int)
    requires
        i <= s.len() <= usize::MAX,
        0 <= t < selected_trace(s, i).len(),
    ensures
        selected_trace(s, i)[t].0.len() == s.len(),
        selected_trace(s, i)[t].0.to_multiset() == s.to_multiset(),
        selected_trace(s, i)[t].1.0 < selected_trace(s, i)[t].1.1 < s.len(),
    decreases i,
{
    if i > 0 {
        let before = selected_trace(s, (i - 1) as nat);
        if t < before.len() {
            lemma_selected_trace_steps(s, (i - 1) as nat, t);
        } else {
            lemma_selected(s, (i - 1) as nat);
            lemma_round_trace_steps(selected(s, (i - 1) as nat), (i - 1) as nat, t - before.len());
        }
    }
}

/// Every step of the trace shows all the values of `s`, and points at a
/// position of the array and at one after it.
pub proof fn lemma_selection_trace_steps(s: Seq<u64>, t: int)
    requires
        s.len() <= usize::MAX,
        0 <= t < selection_trace(s).len(),
    ensures
        selection_trace(s)[t].0.len() == s.len(),
        selection_trace(s)[t].0.to_multiset() == s.to_multiset(),
        selection_trace(s)[t].1.0 < selection_trace(s)[t].1.1 < s.len(),
{
    lemma_selected_trace_steps(s, s.len(), t);
}

/// The first `i` rounds record at least the comparisons they make.
pub proof fn lemma_selected_trace_len(s: Seq<u64>, i: nat)
    requires
        i <= s.len(),
    ensures
        i * (2 * s.len() - i - 1) <= 2 * selected_trace(s, i).len() <= i * (2 * s.len() - i
            - 1) + 2 * i,
    decreases i,
{
    let n = s.len() as int;
    if i > 0 {
        lemma_selected_trace_len(s, (i - 1) as nat);
        lemma_selected(s, (i - 1) as nat);
        let p = selected(s, (i - 1) as nat);
        let i = i as int;
        assert(n - i <= round_trace(p, (i - 1) as nat).len() <= n - i + 1);
        assert((i - 1) * (2 * n - (i - 1) - 1) + 2 * (n - i) == i * (2 * n - i - 1))
            by (nonlinear_arith);
    } else {
        assert(0 * (2 * n - 0 - 1) == 0) by (nonlinear_arith);
    }
}

/// Selection sort records one step for each of its `len * (len - 1) / 2`
/// comparisons, and at most one more in every round.
pub proof fn lemma_selection_trace_len(s: Seq<u64>)
    ensures
        s.len() * (s.len() - 1) / 2 <= selection_trace(s).len() <= s.len() * (s.len() - 1) / 2
            + s.len(),
{
    let n = s.len() as int;
    lemma_selected_trace_len(s, s.len());
    assert(n * (2 * n - n - 1) == n * (n - 1)) by (nonlinear_arith);
}

/// With fewer than two values nothing is recorded; otherwise the last step
/// shows the array in order.
pub proof fn lemma_selection_trace_sorts(s: Seq<u64>)
    ensures
        s.len() <= 1 ==> selection_trace(s).len() == 0 && nondecreasing(s),
        s.len() >= 2 ==> selection_trace(s).len() > 0 && nondecreasing(
            selection_trace(s).last().0,
        ),
{
    lemma_selected(s, s.len());
    lemma_selection_trace_len(s);
    let n = s.len() as int;
    if n >= 2 {
        assert(n * (n - 1) >= 2) by (nonlinear_arith)
            requires
                n >= 2,
        ;
    } else if n == 1 {
        assert(selected_trace(s, 0).len() == 0);
        assert(least_from(s, 0, 0) == 0);
        assert(round_trace(s, 0).len() == 0);
    }
}

/// Runs selection sort on a copy of `input` and returns what it recorded.
pub fn create_iterator(input: &Vec<u64>) -> (steps: Vec<(Vec<u64>, SortPointer)>)
    ensures
        steps_view(steps@) == selection_trace(input@),
        input@.len() * (input@.len() - 1) / 2 <= steps@.len() <= input@.len() * (input@.len()
            - 1) / 2 + input@.len(),
        forall|t: int|
            0 <= t < steps@.len() ==> {
                &&& (#[trigger] steps@[t]).0@.len() == input@.len()
                &&& steps@[t].0@.to_multiset() == input@.to_multiset()
                &&& steps@[t].1.0 < input@.len()
                &&& steps@[t].1.1 < input@.len()
            },
        steps@.len() > 0 ==> nondecreasing(steps@.last().0@),
{
    let mut work: Vec<u64> = input.clone();
    let mut steps: Vec<(Vec<u64>, SortPointer)> = Vec::new();
    let n: usize = work.len();
    assert(steps_view(steps@) =~= Seq::<Step>::empty());
    for i in 0..n
        invariant
            n == input.len(),
            work@ == selected(input@, i as nat),
            steps_view(steps@) == selected_trace(input@, i as nat),
    {
        let ghost start = work@;
        let ghost before = steps_view(steps@);
        proof {
            lemma_selected(input@, i as nat);
        }
        let mut min_index: usize = i;
        for j in i + 1..n
            invariant
                i < n,
                start.len() == n,
                work@ == start,
                i <= min_index < n,
                min_index == least_from(start, i as nat, (j - 1) as nat),
                steps_view(steps@) == before + scan_trace(start, i as nat, (j - 1 - i) as nat),
        {
            if work[j] < work[min_index] {
                min_index = j;
            }
            let step: (Vec<u64>, SortPointer) = (work.clone(), SortPointer(i, j));
            proof {
                lemma_steps_view_push(steps@, step);
                assert(before + scan_trace(start, i as nat, (j - i) as nat) =~= (before
                    + scan_trace(start, i as nat, (j - 1 - i) as nat)).push((work@, step.1)));
            }
            steps.push(step);
        }
        if min_index != i {
            exchange(&mut work, i, min_index);
            let step: (Vec<u64>, SortPointer) = (work.clone(), SortPointer(i, min_index));
            proof {
                lemma_steps_view_push(steps@, step);
                assert(before + round_trace(start, i as nat) =~= (before + scan_trace(
                    start,
                    i as nat,
                    (n - 1 - i) as nat,
                )).push((work@, step.1)));
            }
            steps.push(step);
        }
    }
    proof {
        lemma_selection_trace_len(input@);
        lemma_selection_trace_sorts(input@);
        assert forall|t: int| 0 <= t < steps@.len() implies {
            &&& (#[trigger] steps@[t]).0@.len() == input@.len()
            &&& steps@[t].0@.to_multiset() == input@.to_multiset()
            &&& steps@[t].1.0 < input@.len()
            &&& steps@[t].1.1 < input@.len()
        } by {
            lemma_selection_trace_steps(input@, t);
            assert(steps_view(steps@)[t] == (steps@[t].0@, steps@[t].1));
        }
        if steps@.len() > 0 {
            assert(steps_view(steps@).last() == (steps@.last().0@, steps@.last().1));
        }
    }
    steps
}

/// A playback session over selection sort.
pub struct SelectionSort {
    session: Playback,
}

impl SelectionSort {
    /// The session replays selection sort and nothing else.
    #[verifier::type_invariant]
    closed spec fn valid(&self) -> bool {
        self.session@.algorithm == Algorithm::Selection
    }

    /// Records selection sort on `input` and starts before the first step,
    /// paused.
    pub fn new(input: Vec<u64>) -> (r: SelectionSort)
        ensures
            r.state().wf(),
            r.state() == SessionState::fresh(Algorithm::Selection, input@),
    {
        SelectionSort { session: Playback::new(Algorithm::Selection, input) }
    }
}

impl Sort for SelectionSort {
    closed spec fn state(&self) -> SessionState {
        self.session@
    }

    fn items(&self) -> (r: &Vec<u64>) {
        self.session.items()
    }

    fn step(&mut self) -> (r: (&Vec<u64>, &SortPointer)) {
        proof {
            use_type_invariant(&*self);
        }
        self.session.step()
    }

    fn is_active(&self) -> (r: bool) {
        self.session.is_active()
    }

    fn is_sorted(&self) -> (r: bool) {
        self.session.is_sorted()
    }

    fn toggle_sort(&mut self) {
        proof {
            use_type_invariant(&*self);
        }
        let active = self.session.is_active();
        self.session.set_active(!active);
    }

    fn activate_sort(&mut self) {
        proof {
            use_type_invariant(&*self);
        }
        self.session.set_active(true);
    }

    fn deactivate_sort(&mut self) {
        proof {
            use_type_invariant(&*self);
        }
        self.session.set_active(false);
    }

    fn get_pointer(&self) -> (r: &SortPointer) {
        self.session.get_pointer()
    }

    fn get_name(&self) -> (r: String)
        ensures
            r@ == "Selection Sort"@,
    {
        proof {
            use_type_invariant(self);
        }
        self.session.get_name()
    }

    fn get_current_step(&self) -> (r: usize) {
        self.session.get_current_step()
    }

    fn reset(&mut self, items: Vec<u64>) {
        proof {
            use_type_invariant(&*self);
        }
        self.session = Playback::new(Algorithm::Selection, items);
    }
}

} // verus!
