//! Insertion sort, recorded exchange by exchange.
//!
//! For every position `i` from 1 on, the value found there sinks towards the
//! front for as long as its left neighbour is larger.  Each exchange is a
//! step, pointing at `i` and at the place the value has reached; a value that
//! does not move records nothing.

use crate::sort::playback::Playback;
use crate::sort::{
    exchange, lemma_steps_view_push, lemma_swapped_keeps_values, nondecreasing, steps_view,
    swapped, Algorithm, SessionState, Sort, SortPointer, Step,
};
use vstd::prelude::*;

verus! {

/// `s` after the value at `j` has sunk as far as it goes: it moves one place
/// to the left for as long as its left neighbour is larger.
pub open spec fn sunk(s: Seq<u64>, j: nat) -> Seq<u64>
    decreases j,
{
    if j > 0 && s[j as int] < s[j - 1] {
        sunk(swapped(s, j as int, j - 1), (j - 1) as nat)
    } else {
        s
    }
}

/// The steps recorded while the value at `j` sinks, as part of placing the
/// value first found at `i`.
pub open spec fn sink_trace(s: Seq<u64>, i: nat, j: nat) -> Seq<Step>
    decreases j,
{
    if j > 0 && s[j as int] < s[j - 1] {
        let t = swapped(s, j as int, j - 1);
        seq![(t, SortPointer(i as usize, (j - 1) as usize))] + sink_trace(t, i, (j - 1) as nat)
    } else {
        Seq::empty()
    }
}

/// `s` after the values at positions 1 to `i` have been placed, in that order.
pub open spec fn inserted(s: Seq<u64>, i: nat) -> Seq<u64>
    decreases i,
{
    if i == 0 {
        s
    } else {
        sunk(inserted(s, (i - 1) as nat), i)
    }
}

/// The steps recorded while the values at positions 1 to `i` are placed.
pub open spec fn inserted_trace(s: Seq<u64>, i: nat) -> Seq<Step>
    decreases i,
{
    if i == 0 {
        Seq::empty()
    } else {
        inserted_trace(s, (i - 1) as nat) + sink_trace(inserted(s, (i - 1) as nat), i, i)
    }
}

/// Everything insertion sort records on `s`.
pub open spec fn insertion_trace(s: Seq<u64>) -> Seq<Step> {
    if s.len() == 0 {
        Seq::empty()
    } else {
        inserted_trace(s, (s.len() - 1) as nat)
    }
}

/// The first `m` values are in order.
pub open spec fn ordered_before(s: Seq<u64>, m: int) -> bool {
    forall|a: int, b: int| 0 <= a <= b < m ==> s[a] <= s[b]
}

/// The values at positions 0 to `i` are in order once the one at `j` is left
/// out, and that one is no larger than those to its right.
pub open spec fn ordered_but(s: Seq<u64>, i: int, j: int) -> bool {
    &&& forall|a: int, b: int| 0 <= a <= b <= i && a != j && b != j ==> s[a] <= s[b]
    &&& forall|b: int| j < b <= i ==> s[j] <= s[b]
}

/// Sinking keeps length and values, and what it records ends with the array
/// it leaves.
pub proof fn lemma_sunk(s: Seq<u64>, i: nat, j: nat)
    requires
        j <= i < s.len(),
    ensures
        sunk(s, j).len() == s.len(),
        sunk(s, j).to_multiset() == s.to_multiset(),
        sink_trace(s, i, j).len() == 0 ==> sunk(s, j) == s,
        sink_trace(s, i, j).len() > 0 ==> sink_trace(s, i, j).last().0 == sunk(s, j),
        ordered_but(s, i as int, j as int) ==> ordered_before(sunk(s, j), i as int + 1),
    decreases j,
{
    if j > 0 && s[j as int] < s[j - 1] {
        let t = swapped(s, j as int, j - 1);
        lemma_swapped_keeps_values(s, j as int, j - 1);
        lemma_sunk(t, i, (j - 1) as nat);
        let rest = sink_trace(t, i, (j - 1) as nat);
        let head = seq![(t, SortPointer(i as usize, (j - 1) as usize))];
        assert(sink_trace(s, i, j) == head + rest);
        if rest.len() > 0 {
            assert((head + rest).last() == rest.last());
        } else {
            assert((head + rest).last() == head[0]);
        }
        if ordered_but(s, i as int, j as int) {
            assert(ordered_but(t, i as int, j - 1));
        }
    } else {
        if ordered_but(s, i as int, j as int) {
            assert forall|a: int, b: int| 0 <= a <= b < i + 1 implies s[a] <= s[b] by {
                if b == j && a < j {
                    assert(s[a] <= s[j - 1]);
                }
            }
        }
    }
}

/// Every step recorded while a value sinks shows all the values of `s`, and
/// points at `i` and at a position before it.
pub proof fn lemma_sink_trace_steps(s: Seq<u64>, i: nat, j: nat, t: int)
    requires
        j <= i < s.len() <= usize::MAX,
        0 <= t < sink_trace(s, i, j).len(),
    ensures
        sink_trace(s, i, j)[t].0.len() == s.len(),
        sink_trace(s, i, j)[t].0.to_multiset() == s.to_multiset(),
        sink_trace(s, i, j)[t].1.0 == i,
        sink_trace(s, i, j)[t].1.1 < j,
    decreases j,
{
    let u = swapped(s, j as int, j - 1);
    lemma_swapped_keeps_values(s, j as int, j - 1);
    if t > 0 {
        lemma_sink_trace_steps(u, i, (j - 1) as nat, t - 1);
    }
}

/// After the values up to position `i` have been placed the array still has
/// its length and its values, and its first `i + 1` values are in order.
pub proof fn lemma_inserted(s: Seq<u64>, i: nat)
    requires
        i < s.len(),
    ensures
        inserted(s, i).len() == s.len(),
        inserted(s, i).to_multiset() == s.to_multiset(),
        ordered_before(inserted(s, i), i as int + 1),
        inserted_trace(s, i).len() == 0 ==> inserted(s, i) == s,
        inserted_trace(s, i).len() > 0 ==> inserted_trace(s, i).last().0 == inserted(s, i),
    decreases i,
{
    if i > 0 {
        let p = inserted(s, (i - 1) as nat);
        lemma_inserted(s, (i - 1) as nat);
        assert(ordered_but(p, i as int, i as int));
        lemma_sunk(p, i, i);
        let before = inserted_trace(s, (i - 1) as nat);
        let now = sink_trace(p, i, i);
        if now.len() > 0 {
            assert((before + now).last() == now.last());
        } else {
            assert(before + now =~= before);
        }
    }
}

/// Every step of the trace shows all the values of `s`, and points at a
/// position of the array and at one before it.
pub proof fn lemma_inserted_trace_steps(s: Seq<u64>, i: nat, t: int)
    requires
        i < s.len() <= usize::MAX,
        0 <= t < inserted_trace(s, i).len(),
    ensures
        inserted_trace(s, i)[t].0.len() == s.len(),
        inserted_trace(s, i)[t].0.to_multiset() == s.to_multiset(),
        inserted_trace(s, i)[t].1.1 < inserted_trace(s, i)[t].1.0 < s.len(),
    decreases i,
{
    if i > 0 {
        let before = inserted_trace(s, (i - 1) as nat);
        if t < before.len() {
            lemma_inserted_trace_steps(s, (i - 1) as nat, t);
        } else {
            lemma_inserted(s, (i - 1) as nat);
            lemma_sink_trace_steps(inserted(s, (i - 1) as nat), i, i, t - before.len());
        }
    }
}

/// Every step of the trace shows all the values of `s`, and points at a
/// position of the array and at one before it.
pub proof fn lemma_insertion_trace_steps(s: Seq<u64>, t: int)
    requires
        s.len() <= usize::MAX,
        0 <= t < insertion_trace(s).len(),
    ensures
        insertion_trace(s)[t].0.len() == s.len(),
        insertion_trace(s)[t].0.to_multiset() == s.to_multiset(),
        insertion_trace(s)[t].1.1 < insertion_trace(s)[t].1.0 < s.len(),
{
    lemma_inserted_trace_steps(s, (s.len() - 1) as nat, t);
}

/// Placing values in an array that is already in order moves nothing and
/// records nothing.
pub proof fn lemma_inserted_in_order(s: Seq<u64>, i: nat)
    requires
        i < s.len(),
        nondecreasing(s),
    ensures
        inserted(s, i) == s,
        inserted_trace(s, i).len() == 0,
    decreases i,
{
    if i > 0 {
        lemma_inserted_in_order(s, (i - 1) as nat);
        assert(s[i - 1] <= s[i as int]);
    }
}

/// Insertion sort records nothing exactly when its input is in order
/// already; otherwise its last step shows the array in order.
pub proof fn lemma_insertion_trace_sorts(s: Seq<u64>)
    ensures
        insertion_trace(s).len() == 0 <==> nondecreasing(s),
        insertion_trace(s).len() > 0 ==> nondecreasing(insertion_trace(s).last().0),
{
    if s.len() > 0 {
        let i = (s.len() - 1) as nat;
        lemma_inserted(s, i);
        if nondecreasing(s) {
            lemma_inserted_in_order(s, i);
        }
    }
}

/// Runs insertion sort on a copy of `input` and returns what it recorded.
pub fn create_iterator(input: &Vec<u64>) -> (steps: Vec<(Vec<u64>, SortPointer)>)
    ensures
        steps_view(steps@) == insertion_trace(input@),
        steps@.len() == 0 <==> nondecreasing(input@),
        forall|t: int|
            0 <= t < steps@.len() ==> {
                &&& (#[trigger] steps@[t]).0@.len() == input@.len()
                &&& steps@[t].0@.to_multiset() == input@.to_multiset()
                &&& steps@[t].1.0 < input@.len()
                &&& steps@[t].1.1 < input@.len()
            },
        steps@.len() > 0 ==> nondecreasing(steps@.last().0@),
{
    let mut work: Vec<u64> = input.clone();
    let mut steps: Vec<(Vec<u64>, SortPointer)> = Vec::new();
    let n: usize = work.len();
    assert(steps_view(steps@) =~= Seq::<Step>::empty());
    if n == 0 {
        return steps;
    }
    for i in 1..n
        invariant
            n == input.len(),
            n >= 1,
            work@ == inserted(input@, (i - 1) as nat),
            steps_view(steps@) == inserted_trace(input@, (i - 1) as nat),
    {
        let ghost start = work@;
        let ghost before = steps_view(steps@);
        proof {
            lemma_inserted(input@, (i - 1) as nat);
            assert(before + sink_trace(start, i as nat, i as nat) == inserted_trace(
                input@,
                i as nat,
            ));
        }
        let mut j: usize = i;
        while j > 0 && work[j] < work[j - 1]
            invariant
                j <= i < n,
                work.len() == n,
                sunk(work@, j as nat) == sunk(start, i as nat),
                steps_view(steps@) + sink_trace(work@, i as nat, j as nat) == before + sink_trace(
                    start,
                    i as nat,
                    i as nat,
                ),
            decreases j,
        {
            let ghost held = steps_view(steps@);
            let ghost old_work = work@;
            exchange(&mut work, j, j - 1);
            j = j - 1;
            let step: (Vec<u64>, SortPointer) = (work.clone(), SortPointer(i, j));
            proof {
                lemma_steps_view_push(steps@, step);
                let rest = sink_trace(work@, i as nat, j as nat);
                assert(sink_trace(old_work, i as nat, (j + 1) as nat) == seq![(work@, step.1)]
                    + rest);
                assert(held.push((work@, step.1)) + rest =~= held + (seq![(work@, step.1)]
                    + rest));
            }
            steps.push(step);
        }
        proof {
            assert(steps_view(steps@) + Seq::<Step>::empty() =~= steps_view(steps@));
        }
    }
    proof {
        lemma_insertion_trace_sorts(input@);
        assert forall|t: int| 0 <= t < steps@.len() implies {
            &&& (#[trigger] steps@[t]).0@.len() == input@.len()
            &&& steps@[t].0@.to_multiset() == input@.to_multiset()
            &&& steps@[t].1.0 < input@.len()
            &&& steps@[t].1.1 < input@.len()
        } by {
            lemma_insertion_trace_steps(input@, t);
            assert(steps_view(steps@)[t] == (steps@[t].0@, steps@[t].1));
        }
        if steps@.len() > 0 {
            assert(steps_view(steps@).last() == (steps@.last().0@, steps@.last().1));
        }
    }
    steps
}

/// A playback session over insertion sort.
pub struct InsertionSort {
    session: Playback,
}

impl InsertionSort {
    /// The session replays insertion sort and nothing else.
    #[verifier::type_invariant]
    closed spec fn valid(&self) -> bool {
        self.session@.algorithm == Algorithm::Insertion
    }

    /// Records insertion sort on `input` and starts before the first step,
    /// paused.
    pub fn new(input: Vec<u64>) -> (r: InsertionSort)
        ensures
            r.state().wf(),
            r.state() == SessionState::fresh(Algorithm::Insertion, input@),
    {
        InsertionSort { session: Playback::new(Algorithm::Insertion, input) }
    }
}

impl Sort for InsertionSort {
    closed spec fn state(&self) -> SessionState {
        self.session@
    }

    fn items(&self) -> (r: &Vec<u64>) {
        self.session.items()
    }

    fn step(&mut self) -> (r: (&Vec<u64>, &SortPointer)) {
        proof {
            use_type_invariant(&*self);
        }
        self.session.step()
    }

    fn is_active(&self) -> (r: bool) {
        self.session.is_active()
    }

    fn is_sorted(&self) -> (r: bool) {
        self.session.is_sorted()
    }

    fn toggle_sort(&mut self) {
        proof {
            use_type_invariant(&*self);
        }
        let active = self.session.is_active();
        self.session.set_active(!active);
    }

    fn activate_sort(&mut self) {
        proof {
            use_type_invariant(&*self);
        }
        self.session.set_active(true);
    }

    fn deactivate_sort(&mut self) {
        proof {
            use_type_invariant(&*self);
        }
        self.session.set_active(false);
    }

    fn get_pointer(&self) -> (r: &SortPointer) {
        self.session.get_pointer()
    }

    fn get_name(&self) -> (r: String)
        ensures
            r@ == "Insertion Sort"@,
    {
        proof {
            use_type_invariant(self);
        }
        self.session.get_name()
    }

    fn get_current_step(&self) -> (r: usize) {
        self.session.get_current_step()
    }

    fn reset(&mut self, items: Vec<u64>) {
        proof {
            use_type_invariant(&*self);
        }
        self.session = Playback::new(Algorithm::Insertion, items);
    }
}

} // verus!
