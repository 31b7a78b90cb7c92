//! The replaying half of a session: a recording, and a cursor into it.

use crate::sort::{
    bubble, insertion, lemma_complete_in_order, lemma_session_shape, nondecreasing, selection,
    steps_view, trace, Algorithm, SessionState, SortPointer,
};
use vstd::prelude::*;

verus! {

/// A recording of one algorithm on one input, replayed step by step.
pub struct Playback {
    algorithm: Algorithm,
    input: Vec<u64>,
    steps: Vec<(Vec<u64>, SortPointer)>,
    cursor: usize,
    origin: SortPointer,
    active: bool,
    complete: bool,
}

impl View for Playback {
    type V = SessionState;

    closed spec fn view(&self) -> SessionState {
        SessionState {
            algorithm: self.algorithm,
            input: self.input@,
            cursor: self.cursor as nat,
            active: self.active,
            complete: self.complete,
        }
    }
}

/// Runs `algorithm` on a copy of `input` and returns what it recorded: every
/// snapshot holds the input's values, every pointer names two positions of
/// the array, and the last snapshot is in order.
pub fn record(algorithm: Algorithm, input: &Vec<u64>) -> (steps: Vec<(Vec<u64>, SortPointer)>)
    ensures
        steps_view(steps@) == trace(algorithm, input@),
        forall|t: int|
            0 <= t < steps@.len() ==> {
                &&& (#[trigger] steps@[t]).0@.len() == input@.len()
                &&& steps@[t].0@.to_multiset() == input@.to_multiset()
                &&& steps@[t].1.0 < input@.len()
                &&& steps@[t].1.1 < input@.len()
            },
        steps@.len() > 0 ==> nondecreasing(steps@.last().0@),
{
    match algorithm {
        Algorithm::Bubble => bubble::create_iterator(input),
        Algorithm::Insertion => insertion::create_iterator(input),
        Algorithm::Selection => selection::create_iterator(input),
    }
}

impl Playback {
    /// The recording is the one that the algorithm makes on the input, the
    /// cursor lies within it, and completion is only noted at its end.
    #[verifier::type_invariant]
    closed spec fn valid(&self) -> bool {
        &&& self.input@.len() <= usize::MAX
        &&& steps_view(self.steps@) == trace(self.algorithm, self.input@)
        &&& self.cursor <= self.steps.len()
        &&& self.complete ==> self.cursor == self.steps.len()
        &&& self.origin == SortPointer(0, 1)
    }

    /// Records `algorithm` on `input` and starts before the first step.
    pub fn new(algorithm: Algorithm, input: Vec<u64>) -> (r: Playback)
        ensures
            r@.wf(),
            r@ == SessionState::fresh(algorithm, input@),
    {
        let steps = record(algorithm, &input);
        assert(input@.len() == input.len());
        Playback {
            algorithm,
            input,
            steps,
            cursor: 0,
            origin: SortPointer(0, 1),
            active: false,
            complete: false,
        }
    }

    /// The array to show: the input's values in some order.
    pub fn items(&self) -> (r: &Vec<u64>)
        ensures
            self@.wf(),
            r@ == self@.items(),
            r@.len() == self@.input.len(),
            r@.to_multiset() == self@.input.to_multiset(),
        no_unwind
    {
        proof {
            use_type_invariant(self);
            lemma_session_shape(self@);
        }
        if self.cursor == 0 {
            &self.input
        } else {
            &self.steps[self.cursor - 1].0
        }
    }

    /// The positions to highlight: `(0, 1)` before the first step, and from
    /// then on two positions of the array.
    pub fn get_pointer(&self) -> (r: &SortPointer)
        ensures
            self@.wf(),
            *r == self@.pointer(),
            self@.cursor > 0 ==> r.0 < self@.input.len() && r.1 < self@.input.len(),
        no_unwind
    {
        proof {
            use_type_invariant(self);
            lemma_session_shape(self@);
        }
        if self.cursor == 0 {
            &self.origin
        } else {
            &self.steps[self.cursor - 1].1
        }
    }

    /// Consumes the next step, or notes that none is left, and returns what
    /// to show afterwards. On a complete session it changes nothing that is
    /// shown.
    pub fn step(&mut self) -> (r: (&Vec<u64>, &SortPointer))
        ensures
            final(self)@.wf(),
            final(self)@ == old(self)@.step(),
            r.0@ == final(self)@.items(),
            *r.1 == final(self)@.pointer(),
            old(self)@.complete ==> {
                &&& final(self)@.complete
                &&& final(self)@.items() == old(self)@.items()
                &&& final(self)@.pointer() == old(self)@.pointer()
                &&& final(self)@.cursor == old(self)@.cursor
            },
        no_unwind
    {
        proof {
            use_type_invariant(&*self);
        }
        if self.cursor < self.steps.len() {
            self.cursor = self.cursor + 1;
        } else {
            self.complete = true;
            self.active = false;
        }
        (self.items(), self.get_pointer())
    }

    /// Whether the driving loop should go on stepping.
    pub fn is_active(&self) -> (r: bool)
        ensures
            self@.wf(),
            r == self@.active,
        no_unwind
    {
        proof {
            use_type_invariant(self);
        }
        self.active
    }

    /// Whether a step has found the recording exhausted; the array shown is
    /// in order from then on.
    pub fn is_sorted(&self) -> (r: bool)
        ensures
            self@.wf(),
            r == self@.complete,
            r ==> nondecreasing(self@.items()),
    {
        proof {
            use_type_invariant(self);
            if self.complete {
                lemma_complete_in_order(self@);
            }
        }
        self.complete
    }

    /// Sets whether the driving loop should go on stepping.
    pub fn set_active(&mut self, active: bool)
        ensures
            final(self)@.wf(),
            final(self)@ == old(self)@.with_active(active),
        no_unwind
    {
        proof {
            use_type_invariant(&*self);
        }
        self.active = active;
    }

    /// The algorithm that was recorded.
    pub fn algorithm(&self) -> (r: Algorithm)
        ensures
            self@.wf(),
            r == self@.algorithm,
    {
        proof {
            use_type_invariant(self);
        }
        self.algorithm
    }

    /// The name under which the algorithm is shown.
    pub fn get_name(&self) -> (r: String)
        ensures
            self@.wf(),
            r@ == self@.algorithm.name(),
    {
        broadcast use vstd::string::to_string_from_display_ensures_for_str;

        proof {
            use_type_invariant(self);
        }
        match self.algorithm {
            Algorithm::Bubble => "Bubble Sort".to_string(),
            Algorithm::Insertion => "Insertion Sort".to_string(),
            Algorithm::Selection => "Selection Sort".to_string(),
        }
    }

    /// How many steps have been consumed.
    pub fn get_current_step(&self) -> (r: usize)
        ensures
            self@.wf(),
            r == self@.cursor,
    {
        proof {
            use_type_invariant(self);
        }
        self.cursor
    }

    /// Starts over on new data: the same algorithm is recorded on `items`,
    /// and nothing of it has been replayed. The session is paused and not
    /// complete, whatever the length of `items`.
    pub fn reset(&mut self, items: Vec<u64>)
        ensures
            final(self)@.wf(),
            final(self)@ == SessionState::fresh(old(self)@.algorithm, items@),
            final(self)@.items() == items@,
            final(self)@.cursor == 0,
            !final(self)@.active,
            !final(self)@.complete,
    {
        *self = Playback::new(self.algorithm, items);
    }
}

} // verus!
