//! The measurement record: a person's age and height together with a rolling
//! window of their most recent weight samples.
//!
//! A weight sample is carried as the IEEE-754 single-precision bit pattern of
//! the measured value (`f32::to_bits`), so that a record compares, copies and
//! persists bit for bit. The window keeps at most [`CAPACITY`] samples, oldest
//! first; once it is full every new sample pushes the oldest one out.

use vstd::prelude::*;

verus! {

/// The number of weight samples a record keeps.
pub const CAPACITY: usize = 10;

/// The window after one more sample: the sample goes to the end, and if the
/// window was already full its oldest sample (the one at index 0) leaves first.
/// Exactly one sample leaves per push, and the others keep their order.
pub open spec fn window_push(samples: Seq<u32>, sample: u32) -> Seq<u32> {
    if samples.len() >= CAPACITY {
        samples.subrange(1, samples.len() as int).push(sample)
    } else {
        samples.push(sample)
    }
}

/// The window after a whole run of samples, pushed one by one in order.
pub open spec fn window_push_all(samples: Seq<u32>, more: Seq<u32>) -> Seq<u32>
    decreases more.len(),
{
    if more.len() == 0 {
        samples
    } else {
        window_push(window_push_all(samples, more.drop_last()), more.last())
    }
}

/// The last `n` elements of `history`, in order; all of it when it is shorter.
pub open spec fn latest(history: Seq<u32>, n: nat) -> Seq<u32> {
    if history.len() <= n {
        history
    } else {
        history.subrange(history.len() - n, history.len() as int)
    }
}

/// Pushing one sample onto the latest [`CAPACITY`] samples of a history gives
/// the latest [`CAPACITY`] samples of the history with that sample added.
pub proof fn lemma_latest_push(history: Seq<u32>, sample: u32)
    ensures
        window_push(latest(history, CAPACITY as nat), sample) == latest(
            history.push(sample),
            CAPACITY as nat,
        ),
{
    let kept = latest(history, CAPACITY as nat);
    let pushed = history.push(sample);
    assert(window_push(kept, sample) =~= latest(pushed, CAPACITY as nat));
}

/// Capacity law: a window that starts within capacity stays within it whatever
/// is pushed, and it holds every sample until it is full.
pub proof fn law_window_within_capacity(samples: Seq<u32>, more: Seq<u32>)
    requires
        samples.len() <= CAPACITY,
    ensures
        window_push_all(samples, more).len() <= CAPACITY,
        window_push_all(samples, more).len() == if samples.len() + more.len() <= CAPACITY {
            samples.len() + more.len()
        } else {
            CAPACITY as nat
        },
    decreases more.len(),
{
    if more.len() > 0 {
        law_window_within_capacity(samples, more.drop_last());
    }
}

/// Sliding-window law: after any run of pushes, a window that started within
/// capacity holds exactly the latest [`CAPACITY`] samples of everything it was
/// ever given, in the order given. Once [`CAPACITY`] samples or more have been
/// given in all, that is the last [`CAPACITY`] of them.
pub proof fn law_window_keeps_latest(samples: Seq<u32>, more: Seq<u32>)
    requires
        samples.len() <= CAPACITY,
    ensures
        window_push_all(samples, more) == latest(samples + more, CAPACITY as nat),
        samples.len() + more.len() >= CAPACITY ==> window_push_all(samples, more) == (samples
            + more).subrange(
            samples.len() + more.len() - CAPACITY,
            (samples.len() + more.len()) as int,
        ),
    decreases more.len(),
{
    if more.len() == 0 {
        assert(samples + more =~= samples);
    } else {
        let earlier = samples + more.drop_last();
        law_window_keeps_latest(samples, more.drop_last());
        lemma_latest_push(earlier, more.last());
        assert(earlier.push(more.last()) =~= samples + more);
    }
}

/// What a record is, as a mathematical value.
pub struct BodyView {
    pub age: u8,
    pub height: u8,
    pub weights: Seq<u32>,
}

impl BodyView {
    /// The window holds no more than [`CAPACITY`] samples.
    pub open spec fn within_capacity(self) -> bool {
        self.weights.len() <= CAPACITY
    }

    /// The record a registration creates: the given age and height, and a
    /// window that holds the first sample alone.
    pub open spec fn fresh(age: u8, height: u8, weight: u32) -> BodyView {
        BodyView { age, height, weights: seq![weight] }
    }

    /// This record after one more weight sample. Age and height never change.
    pub open spec fn with_weight(self, weight: u32) -> BodyView {
        BodyView { age: self.age, height: self.height, weights: window_push(self.weights, weight) }
    }
}

/// One person's record: age, height and the rolling window of weight samples,
/// oldest first.
#[derive(Debug)]
pub struct Body {
    pub age: u8,
    pub height: u8,
    /// Bit patterns of the samples, in the order they were taken.
    pub weights: Vec<u32>,
}

impl View for Body {
    type V = BodyView;

    open spec fn view(&self) -> BodyView {
        BodyView { age: self.age, height: self.height, weights: self.weights@ }
    }
}

impl Default for Body {
    /// The empty record: age and height zero, no samples.
    fn default() -> (body: Body)
        ensures
            body@ == (BodyView { age: 0, height: 0, weights: Seq::empty() }),
            body.wf(),
    {
        Body { age: 0, height: 0, weights: Vec::new() }
    }
}

impl Body {
    /// The window holds no more than [`CAPACITY`] samples.
    pub open spec fn wf(&self) -> bool {
        self@.within_capacity()
    }

    /// A new record with `weight` as its only sample.
    pub fn new(age: u8, height: u8, weight: u32) -> (body: Body)
        ensures
            body@ == BodyView::fresh(age, height, weight),
            body.wf(),
    {
        let mut weights: Vec<u32> = Vec::new();
        weights.push(weight);
        Body { age, height, weights }
    }

    /// Appends a weight sample, dropping the oldest one first if the window is
    /// full. Never fails, and never lets a window within capacity grow past it.
    pub fn add_weight(&mut self, weight: u32)
        ensures
            final(self)@ == old(self)@.with_weight(weight),
            old(self).wf() ==> final(self).wf(),
    {
        if self.weights.len() >= CAPACITY {
            self.weights.remove(0);
        }
        self.weights.push(weight);
    }

    /// Takes the record apart into age, height and samples.
    pub fn into_parts(self) -> (parts: (u8, u8, Vec<u32>))
        ensures
            parts.0 == self.age,
            parts.1 == self.height,
            parts.2@ == self.weights@,
    {
        (self.age, self.height, self.weights)
    }

    /// Puts a record together from age, height and samples.
    pub fn from_parts(parts: (u8, u8, Vec<u32>)) -> (body: Body)
        ensures
            body@ == (BodyView { age: parts.0, height: parts.1, weights: parts.2@ }),
    {
        Body { age: parts.0, height: parts.1, weights: parts.2 }
    }
}

} // verus!
