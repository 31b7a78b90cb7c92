//! The vocabulary shared by every algorithm: the highlighted pair, the
//! recorded trace, the abstract state of a playback session and the control
//! surface through which a driver advances it.

use vstd::prelude::*;

pub mod bubble;
pub mod insertion;
pub mod playback;
pub mod selection;

verus! {

/// The two positions that the latest step compared or exchanged.
#[derive(Clone, Copy, Debug, PartialEq, Eq, Structural)]
pub struct SortPointer(pub usize, pub usize);

/// One recorded step: the whole array right after the step, and the positions
/// it touched.
pub type Step = (Seq<u64>, SortPointer);

/// `s` with the values at `i` and `j` exchanged.
pub open spec fn swapped(s: Seq<u64>, i: int, j: int) -> Seq<u64> {
    s.update(i, s[j]).update(j, s[i])
}

/// No element is larger than any element after it.
pub open spec fn nondecreasing(s: Seq<u64>) -> bool {
    forall|a: int, b: int| 0 <= a <= b < s.len() ==> s[a] <= s[b]
}

/// What a recording holds, snapshot by snapshot.
pub open spec fn steps_view(steps: Seq<(Vec<u64>, SortPointer)>) -> Seq<Step> {
    Seq::new(steps.len(), |k: int| (steps[k].0@, steps[k].1))
}

/// An exchange moves values around without adding or losing any.
pub proof fn lemma_swapped_keeps_values(s: Seq<u64>, i: int, j: int)
    requires
        0 <= i < s.len(),
        0 <= j < s.len(),
    ensures
        swapped(s, i, j).len() == s.len(),
        swapped(s, i, j).to_multiset() == s.to_multiset(),
{
    broadcast use vstd::multiset::group_multiset_axioms;
    let t = s.update(i, s[j]);
    vstd::seq_lib::to_multiset_update(s, i, s[j]);
    vstd::seq_lib::to_multiset_update(t, j, s[i]);
    assert(s.contains(s[i]));
    vstd::seq_lib::to_multiset_contains(s, s[i]);
    assert(swapped(s, i, j).to_multiset() =~= s.to_multiset());
}

/// Exchanges the values at positions `i` and `j`.
pub fn exchange(items: &mut Vec<u64>, i: usize, j: usize)
    requires
        i < old(items).len(),
        j < old(items).len(),
    ensures
        final(items)@ == swapped(old(items)@, i as int, j as int),
{
    let a: u64 = items[i];
    let b: u64 = items[j];
    items[i] = b;
    items[j] = a;
}

/// Appending to a recording appends to what it holds.
pub proof fn lemma_steps_view_push(
    steps: Seq<(Vec<u64>, SortPointer)>,
    step: (Vec<u64>, SortPointer),
)
    ensures
        steps_view(steps.push(step)) == steps_view(steps).push((step.0@, step.1)),
{
    assert(steps_view(steps.push(step)) =~= steps_view(steps).push((step.0@, step.1)));
}

/// The algorithms that can be recorded.
#[derive(Clone, Copy, Debug, PartialEq, Eq, Structural)]
pub enum Algorithm {
    Bubble,
    Insertion,
    Selection,
}

impl Algorithm {
    /// The name under which the algorithm is shown.
    pub open spec fn name(self) -> Seq<char> {
        match self {
            Algorithm::Bubble => "Bubble Sort"@,
            Algorithm::Insertion => "Insertion Sort"@,
            Algorithm::Selection => "Selection Sort"@,
        }
    }
}

/// Everything that `algorithm` records on `input`, in order.
pub open spec fn trace(algorithm: Algorithm, input: Seq<u64>) -> Seq<Step> {
    match algorithm {
        Algorithm::Bubble => bubble::bubble_trace(input),
        Algorithm::Insertion => insertion::insertion_trace(input),
        Algorithm::Selection => selection::selection_trace(input),
    }
}

/// The array that a recording ends with: its last snapshot, or the input
/// itself where nothing was recorded.
pub open spec fn outcome(algorithm: Algorithm, input: Seq<u64>) -> Seq<u64> {
    let recorded = trace(algorithm, input);
    if recorded.len() == 0 {
        input
    } else {
        recorded.last().0
    }
}

/// Whatever the algorithm and the input, the recording ends with the array
/// in order.
pub proof fn lemma_outcome_in_order(algorithm: Algorithm, input: Seq<u64>)
    ensures
        nondecreasing(outcome(algorithm, input)),
{
    match algorithm {
        Algorithm::Bubble => bubble::lemma_bubble_trace_sorts(input),
        Algorithm::Insertion => insertion::lemma_insertion_trace_sorts(input),
        Algorithm::Selection => selection::lemma_selection_trace_sorts(input),
    }
}

/// Every recorded step shows an array of the input's length that holds the
/// input's values, and points at two different positions of it.
pub proof fn lemma_trace_steps(algorithm: Algorithm, input: Seq<u64>, t: int)
    requires
        input.len() <= usize::MAX,
        0 <= t < trace(algorithm, input).len(),
    ensures
        trace(algorithm, input)[t].0.len() == input.len(),
        trace(algorithm, input)[t].0.to_multiset() == input.to_multiset(),
        trace(algorithm, input)[t].1.0 < input.len(),
        trace(algorithm, input)[t].1.1 < input.len(),
        trace(algorithm, input)[t].1.0 != trace(algorithm, input)[t].1.1,
{
    match algorithm {
        Algorithm::Bubble => bubble::lemma_bubble_trace_steps(input, t),
        Algorithm::Insertion => insertion::lemma_insertion_trace_steps(input, t),
        Algorithm::Selection => selection::lemma_selection_trace_steps(input, t),
    }
}

/// With fewer than two values no algorithm records anything.
pub proof fn lemma_trace_of_short_input(algorithm: Algorithm, input: Seq<u64>)
    requires
        input.len() <= 1,
    ensures
        trace(algorithm, input).len() == 0,
{
    match algorithm {
        Algorithm::Bubble => bubble::lemma_bubble_trace_sorts(input),
        Algorithm::Insertion => insertion::lemma_insertion_trace_sorts(input),
        Algorithm::Selection => selection::lemma_selection_trace_sorts(input),
    }
}

/// The state of a playback session: which recording it replays and how far
/// it has come.
pub struct SessionState {
    /// The algorithm whose recording is replayed.
    pub algorithm: Algorithm,
    /// The array the recording was made from.
    pub input: Seq<u64>,
    /// How many steps of the recording have been consumed.
    pub cursor: nat,
    /// Whether the driving loop should go on stepping.
    pub active: bool,
    /// Whether a step has found the recording exhausted.
    pub complete: bool,
}

impl SessionState {
    /// The recording that the session replays.
    pub open spec fn trace(self) -> Seq<Step> {
        trace(self.algorithm, self.input)
    }

    /// The cursor lies within the recording, and completion is only ever
    /// noted at its end.
    pub open spec fn wf(self) -> bool {
        &&& self.cursor <= self.trace().len()
        &&& self.complete ==> self.cursor == self.trace().len()
    }

    /// A session over `input` of which nothing has been replayed yet.
    pub open spec fn fresh(algorithm: Algorithm, input: Seq<u64>) -> SessionState {
        SessionState { algorithm, input, cursor: 0, active: false, complete: false }
    }

    /// The array to show: the snapshot consumed last, or the input before
    /// the first step.
    pub open spec fn items(self) -> Seq<u64> {
        if self.cursor == 0 {
            self.input
        } else {
            self.trace()[self.cursor - 1].0
        }
    }

    /// The positions to highlight: those of the step consumed last, or
    /// `(0, 1)` before the first step.
    pub open spec fn pointer(self) -> SortPointer {
        if self.cursor == 0 {
            SortPointer(0, 1)
        } else {
            self.trace()[self.cursor - 1].1
        }
    }

    /// The state after one more call for a step: the next step is consumed
    /// or, where none is left, the session is complete and no longer active.
    pub open spec fn step(self) -> SessionState {
        if self.cursor < self.trace().len() {
            SessionState { cursor: self.cursor + 1, ..self }
        } else {
            SessionState { active: false, complete: true, ..self }
        }
    }

    /// The state after `n` calls for a step.
    pub open spec fn steps(self, n: nat) -> SessionState
        decreases n,
    {
        if n == 0 {
            self
        } else {
            self.steps((n - 1) as nat).step()
        }
    }

    /// The same state with the given activity.
    pub open spec fn with_active(self, active: bool) -> SessionState {
        SessionState { active, ..self }
    }
}

/// A session starts at the input, with nothing consumed, neither active nor
/// complete, whatever the input's length.
pub proof fn lemma_fresh(algorithm: Algorithm, input: Seq<u64>)
    ensures
        SessionState::fresh(algorithm, input).wf(),
        SessionState::fresh(algorithm, input).cursor == 0,
        SessionState::fresh(algorithm, input).items() == input,
        SessionState::fresh(algorithm, input).pointer() == SortPointer(0, 1),
        !SessionState::fresh(algorithm, input).active,
        !SessionState::fresh(algorithm, input).complete,
{
}

/// The array that a session shows always has the input's length and holds
/// the input's values, and once a step has been consumed the highlighted
/// positions are two different positions of that array.
pub proof fn lemma_session_shape(s: SessionState)
    requires
        s.wf(),
        s.input.len() <= usize::MAX,
    ensures
        s.items().len() == s.input.len(),
        s.items().to_multiset() == s.input.to_multiset(),
        s.cursor > 0 ==> s.pointer().0 < s.input.len() && s.pointer().1 < s.input.len()
            && s.pointer().0 != s.pointer().1,
{
    if s.cursor > 0 {
        lemma_trace_steps(s.algorithm, s.input, s.cursor - 1);
    }
}

/// Calls for a step keep a session well formed and never change what it
/// replays.
pub proof fn lemma_steps_wf(s: SessionState, n: nat)
    requires
        s.wf(),
    ensures
        s.steps(n).wf(),
        s.steps(n).algorithm == s.algorithm,
        s.steps(n).input == s.input,
        s.cursor <= s.steps(n).cursor,
    decreases n,
{
    if n > 0 {
        lemma_steps_wf(s, (n - 1) as nat);
    }
}

/// A session that is not complete consumes one step with every call for as
/// long as steps are left, and is complete after exactly one call more.
pub proof fn lemma_steps_complete(s: SessionState, n: nat)
    requires
        s.wf(),
        !s.complete,
    ensures
        n <= s.trace().len() - s.cursor ==> s.steps(n).cursor == s.cursor + n && !s.steps(
            n,
        ).complete,
        n > s.trace().len() - s.cursor ==> s.steps(n).cursor == s.trace().len() && s.steps(
            n,
        ).complete && !s.steps(n).active,
    decreases n,
{
    if n > 0 {
        lemma_steps_complete(s, (n - 1) as nat);
        lemma_steps_wf(s, (n - 1) as nat);
    }
}

/// A complete session shows the array in order.
pub proof fn lemma_complete_in_order(s: SessionState)
    requires
        s.wf(),
        s.complete,
    ensures
        nondecreasing(s.items()),
        s.items() == outcome(s.algorithm, s.input),
{
    lemma_outcome_in_order(s.algorithm, s.input);
}

/// Stepping a session until it is complete ends with the array in order.
pub proof fn lemma_stepped_to_completion_in_order(s: SessionState, n: nat)
    requires
        s.wf(),
        s.steps(n).complete,
    ensures
        nondecreasing(s.steps(n).items()),
{
    lemma_steps_wf(s, n);
    lemma_complete_in_order(s.steps(n));
}

/// Further calls for a step change nothing that a complete session shows:
/// not the array, not the highlighted positions, not the count of steps, and
/// it stays complete.
pub proof fn lemma_steps_past_completion(s: SessionState, n: nat)
    requires
        s.wf(),
        s.complete,
    ensures
        s.steps(n).items() == s.items(),
        s.steps(n).pointer() == s.pointer(),
        s.steps(n).cursor == s.cursor,
        s.steps(n).complete,
        n > 0 ==> !s.steps(n).active,
    decreases n,
{
    if n > 0 {
        lemma_steps_past_completion(s, (n - 1) as nat);
        lemma_steps_wf(s, (n - 1) as nat);
    }
}

/// A session over fewer than two values is complete after the first call for
/// a step, and shows its input throughout.
pub proof fn lemma_short_input_completes_at_once(algorithm: Algorithm, input: Seq<u64>)
    requires
        input.len() <= 1,
    ensures
        SessionState::fresh(algorithm, input).step().complete,
        SessionState::fresh(algorithm, input).step().items() == input,
{
    lemma_trace_of_short_input(algorithm, input);
}

/// Insertion sort over an input that is in order already records nothing, so
/// that the first call for a step completes the session.
pub proof fn lemma_insertion_in_order_completes_at_once(input: Seq<u64>)
    requires
        nondecreasing(input),
    ensures
        trace(Algorithm::Insertion, input).len() == 0,
        SessionState::fresh(Algorithm::Insertion, input).step().complete,
        SessionState::fresh(Algorithm::Insertion, input).step().items() == input,
{
    insertion::lemma_insertion_trace_sorts(input);
}

/// Bubble sort records `len * (len - 1) / 2` steps, so that a session over it
/// is complete after exactly one call more than that.
pub proof fn lemma_bubble_step_count(input: Seq<u64>, n: nat)
    ensures
        trace(Algorithm::Bubble, input).len() == input.len() * (input.len() - 1) / 2,
        SessionState::fresh(Algorithm::Bubble, input).steps(n).complete <==> n > input.len() * (
            input.len() - 1) / 2,
{
    bubble::lemma_bubble_trace_len(input);
    lemma_steps_complete(SessionState::fresh(Algorithm::Bubble, input), n);
}

/// The control surface of a playback session, the same for every algorithm.
pub trait Sort {
    /// The state of the session.
    spec fn state(&self) -> SessionState;

    /// The array to show: the input's values in some order.
    fn items(&self) -> (r: &Vec<u64>)
        ensures
            self.state().wf(),
            r@ == self.state().items(),
            r@.len() == self.state().input.len(),
            r@.to_multiset() == self.state().input.to_multiset(),
    ;

    /// Consumes the next step, or notes that none is left, and returns what
    /// to show afterwards. On a complete session it changes nothing that is
    /// shown.
    fn step(&mut self) -> (r: (&Vec<u64>, &SortPointer))
        ensures
            final(self).state().wf(),
            final(self).state() == old(self).state().step(),
            r.0@ == final(self).state().items(),
            *r.1 == final(self).state().pointer(),
            old(self).state().complete ==> {
                &&& final(self).state().complete
                &&& final(self).state().items() == old(self).state().items()
                &&& final(self).state().pointer() == old(self).state().pointer()
                &&& final(self).state().cursor == old(self).state().cursor
            },
    ;

    /// Whether the driving loop should go on stepping.
    fn is_active(&self) -> (r: bool)
        ensures
            self.state().wf(),
            r == self.state().active,
    ;

    /// Whether a step has found the recording exhausted; the array shown is
    /// in order from then on.
    fn is_sorted(&self) -> (r: bool)
        ensures
            self.state().wf(),
            r == self.state().complete,
            r ==> nondecreasing(self.state().items()),
    ;

    /// Pauses an active session and resumes a paused one.
    fn toggle_sort(&mut self)
        ensures
            final(self).state().wf(),
            final(self).state() == old(self).state().with_active(!old(self).state().active),
    ;

    /// Asks the driving loop to go on stepping.
    fn activate_sort(&mut self)
        ensures
            final(self).state().wf(),
            final(self).state() == old(self).state().with_active(true),
    ;

    /// Pauses the session where it is.
    fn deactivate_sort(&mut self)
        ensures
            final(self).state().wf(),
            final(self).state() == old(self).state().with_active(false),
    ;

    /// The positions to highlight: `(0, 1)` before the first step, and from
    /// then on two positions of the array.
    fn get_pointer(&self) -> (r: &SortPointer)
        ensures
            self.state().wf(),
            *r == self.state().pointer(),
            self.state().cursor > 0 ==> r.0 < self.state().input.len() && r.1
                < self.state().input.len(),
    ;

    /// The name under which the algorithm is shown.
    fn get_name(&self) -> (r: String)
        ensures
            self.state().wf(),
            r@ == self.state().algorithm.name(),
    ;

    /// How many steps have been consumed.
    fn get_current_step(&self) -> (r: usize)
        ensures
            self.state().wf(),
            r == self.state().cursor,
    ;

    /// Starts over on new data: the same algorithm is recorded on `items`,
    /// and nothing of it has been replayed. The session is paused and not
    /// complete, whatever the length of `items`.
    fn reset(&mut self, items: Vec<u64>)
        ensures
            final(self).state().wf(),
            final(self).state() == SessionState::fresh(old(self).state().algorithm, items@),
            final(self).state().items() == items@,
            final(self).state().cursor == 0,
            !final(self).state().active,
            !final(self).state().complete,
    ;
}

} // verus!
