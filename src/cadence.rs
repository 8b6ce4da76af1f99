use vstd::prelude::*;

verus! {

/// How a paced replay ended.
#[derive(Clone, Copy, Debug, PartialEq, Eq, Structural)]
pub enum Outcome {
    /// Every item was emitted.
    Completed,
    /// A stop was observed before the item at this index was emitted.
    Stopped(usize),
}

/// What the replay does at one tick.
#[derive(Clone, Copy, Debug, PartialEq, Eq, Structural)]
pub enum Tick {
    /// Emit the item at `index`; wait one period before the next tick when
    /// `pause_after` holds, that is when items remain.
    Emit { index: usize, pause_after: bool },
    /// The replay is over.
    Finish(Outcome),
}

/// The decision state of a paced replay over `len` items: the index of the
/// next item to emit, and the outcome once the replay has ended.
#[derive(Clone, Copy, Debug, PartialEq, Eq, Structural)]
pub struct Cadence {
    pub next: usize,
    pub len: usize,
    pub outcome: Option<Outcome>,
}

/// The state of a replay over `len` items that has not ticked yet.
pub open spec fn start_state(len: usize) -> Cadence {
    Cadence { next: 0, len, outcome: None }
}

/// One tick from state `s`, where `stop` tells whether a stop was requested.
/// The stop is looked at before each item: an item is emitted only if no stop
/// was seen, and once every item is out the replay completes.
pub open spec fn step(s: Cadence, stop: bool) -> (Cadence, Tick) {
    if s.next >= s.len {
        (Cadence { outcome: Some(Outcome::Completed), ..s }, Tick::Finish(Outcome::Completed))
    } else if stop {
        (
            Cadence { outcome: Some(Outcome::Stopped(s.next)), ..s },
            Tick::Finish(Outcome::Stopped(s.next)),
        )
    } else {
        (
            Cadence { next: (s.next + 1) as usize, ..s },
            Tick::Emit { index: s.next, pause_after: s.next + 1 < s.len },
        )
    }
}

/// The indices emitted when a replay in state `s` observes the stop requests
/// `stops`, one per tick until it ends, and the state it is left in.
pub open spec fn run(s: Cadence, stops: Seq<bool>) -> (Seq<usize>, Cadence)
    decreases stops.len(),
{
    if stops.len() == 0 || s.outcome.is_some() {
        (Seq::empty(), s)
    } else {
        let (s2, t) = step(s, stops[0]);
        let (rest, last) = run(s2, stops.drop_first());
        match t {
            Tick::Emit { index, .. } => (seq![index].add(rest), last),
            Tick::Finish(_) => (rest, last),
        }
    }
}

/// The indices `from`, `from + 1`, ..., `to - 1`, in that order.
pub open spec fn indices(from: usize, to: usize) -> Seq<usize> {
    Seq::new((to - from) as nat, |i: int| (from + i) as usize)
}

/// A well-formed replay state: never past the end, and a stop names the
/// index at which it happened.
pub open spec fn wf(s: Cadence) -> bool {
    &&& s.next <= s.len
    &&& (s.outcome == Some(Outcome::Completed) ==> s.next == s.len)
    &&& forall|k: usize| s.outcome == Some(Outcome::Stopped(k)) ==> k == s.next
}

impl Cadence {
    /// A replay over `len` items, before its first tick.
    pub fn new(len: usize) -> (c: Cadence)
        ensures
            c == start_state(len),
            wf(c),
    {
        Cadence { next: 0, len, outcome: None }
    }

    /// Whether the replay has ended.
    pub fn is_finished(&self) -> (r: bool)
        ensures
            r == self.outcome.is_some(),
    {
        self.outcome.is_some()
    }

    /// Takes one tick, given whether a stop was requested.
    pub fn poll(&mut self, stop: bool) -> (t: Tick)
        requires
            wf(*old(self)),
            old(self).outcome.is_none(),
        ensures
            (*final(self), t) == step(*old(self), stop),
            wf(*final(self)),
    {
        if self.next >= self.len {
            self.outcome = Some(Outcome::Completed);
            Tick::Finish(Outcome::Completed)
        } else if stop {
            self.outcome = Some(Outcome::Stopped(self.next));
            Tick::Finish(Outcome::Stopped(self.next))
        } else {
            let index = self.next;
            self.next = index + 1;
            Tick::Emit { index, pause_after: self.next < self.len }
        }
    }
}

/// Whatever stops are observed, a replay emits its items in their original
/// order, skipping none: what comes out is the run of indices from where it
/// stood to where it is left, and a stop names the first index not emitted.
pub proof fn lemma_emits_in_order(s: Cadence, stops: Seq<bool>)
    requires
        wf(s),
    ensures
        run(s, stops).0 == indices(s.next, run(s, stops).1.next),
        wf(run(s, stops).1),
        run(s, stops).1.len == s.len,
        s.next <= run(s, stops).1.next,
    decreases stops.len(),
{
    if stops.len() == 0 || s.outcome.is_some() {
        assert(indices(s.next, s.next) =~= Seq::empty());
    } else {
        let (s2, t) = step(s, stops[0]);
        lemma_emits_in_order(s2, stops.drop_first());
        let (rest, last) = run(s2, stops.drop_first());
        match t {
            Tick::Emit { index, .. } => {
                assert(seq![index].add(rest) =~= indices(s.next, last.next));
            },
            Tick::Finish(_) => {
                assert(s2.outcome.is_some());
                assert(rest =~= indices(s.next, last.next));
            },
        }
    }
}

/// A replay whose stop is requested before its first tick emits nothing and
/// reports that it stopped at index 0.
pub proof fn lemma_stop_before_first_tick(len: usize, stops: Seq<bool>)
    requires
        len > 0,
        stops.len() > 0,
        stops[0],
    ensures
        run(start_state(len), stops).0 == Seq::<usize>::empty(),
        run(start_state(len), stops).1.outcome == Some(Outcome::Stopped(0)),
{
    let (s2, t) = step(start_state(len), stops[0]);
    assert(s2.outcome.is_some());
    assert(run(s2, stops.drop_first()) == (Seq::<usize>::empty(), s2));
}

/// A replay that is never asked to stop, given a tick for each item and one to
/// end on, emits all its items in their original order and completes.
pub proof fn lemma_never_stopped(len: usize, stops: Seq<bool>)
    requires
        stops.len() > len,
        forall|i: int| 0 <= i < stops.len() ==> !stops[i],
    ensures
        run(start_state(len), stops).0 == indices(0, len),
        run(start_state(len), stops).1.outcome == Some(Outcome::Completed),
{
    lemma_unstopped_completes(start_state(len), stops);
    lemma_emits_in_order(start_state(len), stops);
}

proof fn lemma_unstopped_completes(s: Cadence, stops: Seq<bool>)
    requires
        wf(s),
        s.outcome.is_none(),
        stops.len() > s.len - s.next,
        forall|i: int| 0 <= i < stops.len() ==> !stops[i],
    ensures
        run(s, stops).1.outcome == Some(Outcome::Completed),
        run(s, stops).1.next == s.len,
    decreases stops.len(),
{
    let (s2, t) = step(s, stops[0]);
    if s.next < s.len {
        lemma_unstopped_completes(s2, stops.drop_first());
    } else {
        assert(run(s2, stops.drop_first()) == (Seq::<usize>::empty(), s2));
    }
}

} // verus!
