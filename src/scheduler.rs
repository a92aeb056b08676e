use vstd::prelude::*;

verus! {

/// A timed key event: the key expression `key` is pressed `time_us`
/// microseconds after playback starts and held for `duration_ms` milliseconds.
#[derive(Debug)]
pub struct KeyEvent {
    pub time_us: u64,
    pub key: String,
    pub duration_ms: i64,
}

/// What the thread that runs a playback does next.
#[derive(Clone, Copy, Debug, PartialEq, Eq, Structural)]
pub enum Step {
    /// Sleep this many microseconds, then step again.
    Wait(u64),
    /// Perform the event at this index, then step again.
    Fire(usize),
    /// The run is over: completed or cancelled.
    Finish,
}

/// The abstract state of a scheduler: its events, the index of the next
/// event to perform, and whether the run is over.
pub struct SchedulerView {
    pub events: Seq<KeyEvent>,
    pub next: nat,
    pub done: bool,
}

/// One decision of a run. A run ends once it is cancelled or its events are
/// used up; otherwise the next event waits until its offset and then fires.
pub open spec fn step_spec(v: SchedulerView, cancelled: bool, elapsed_us: u64) -> (
    SchedulerView,
    Step,
) {
    if v.done || cancelled || v.next >= v.events.len() {
        (SchedulerView { done: true, ..v }, Step::Finish)
    } else if v.events[v.next as int].time_us > elapsed_us {
        (v, Step::Wait((v.events[v.next as int].time_us - elapsed_us) as u64))
    } else {
        (SchedulerView { next: v.next + 1, ..v }, Step::Fire(v.next as usize))
    }
}

/// Walks a sequence of events in order, against the time elapsed since the
/// run started; the events are neither sorted nor checked.
pub struct Scheduler {
    events: Vec<KeyEvent>,
    next: usize,
    done: bool,
}

impl View for Scheduler {
    type V = SchedulerView;

    closed spec fn view(&self) -> SchedulerView {
        SchedulerView { events: self.events@, next: self.next as nat, done: self.done }
    }
}

impl Scheduler {
    pub closed spec fn wf(&self) -> bool {
        self.next <= self.events@.len()
    }

    pub fn new(events: Vec<KeyEvent>) -> (r: Scheduler)
        ensures
            r.wf(),
            r@ == (SchedulerView { events: events@, next: 0, done: false }),
    {
        Scheduler { events, next: 0, done: false }
    }

    /// Decides the next step, given whether cancellation has been requested
    /// and how many microseconds have passed since the run started.
    pub fn step(&mut self, cancelled: bool, elapsed_us: u64) -> (r: Step)
        requires
            old(self).wf(),
        ensures
            final(self).wf(),
            (final(self)@, r) == step_spec(old(self)@, cancelled, elapsed_us),
    {
        if self.done || cancelled || self.next >= self.events.len() {
            self.done = true;
            return Step::Finish;
        }
        let t = self.events[self.next].time_us;
        if t > elapsed_us {
            Step::Wait(t - elapsed_us)
        } else {
            let i = self.next;
            self.next = self.next + 1;
            Step::Fire(i)
        }
    }

    pub fn len(&self) -> (r: usize)
        ensures
            r == self@.events.len(),
    {
        self.events.len()
    }

    pub fn event(&self, i: usize) -> (r: &KeyEvent)
        requires
            i < self@.events.len(),
        ensures
            *r == self@.events[i as int],
    {
        &self.events[i]
    }

    pub fn next_index(&self) -> (r: usize)
        ensures
            r == self@.next,
    {
        self.next
    }

    pub fn is_done(&self) -> (r: bool)
        ensures
            r == self@.done,
    {
        self.done
    }
}

/// An event fires only at or after its offset, only when no cancellation is
/// requested, and events fire in sequence order, each at most once.
pub proof fn lemma_fire_in_order_not_early(v: SchedulerView, cancelled: bool, elapsed_us: u64)
    requires
        v.events.len() <= usize::MAX,
    ensures
        step_spec(v, cancelled, elapsed_us).1 matches Step::Fire(i) ==> {
            &&& !cancelled
            &&& !v.done
            &&& i == v.next
            &&& i < v.events.len()
            &&& v.events[i as int].time_us <= elapsed_us
            &&& step_spec(v, cancelled, elapsed_us).0.next == v.next + 1
        },
        step_spec(v, cancelled, elapsed_us).0.events == v.events,
{
}

/// A cancelled or finished run stays finished: every later step is `Finish`
/// and no event fires again.
pub proof fn lemma_finish_is_final(v: SchedulerView, cancelled: bool, elapsed_us: u64)
    requires
        v.done || cancelled,
    ensures
        step_spec(v, cancelled, elapsed_us).1 == Step::Finish,
        step_spec(v, cancelled, elapsed_us).0.done,
        forall|c: bool, e: u64| #[trigger] step_spec(step_spec(v, cancelled, elapsed_us).0, c, e) == (
            step_spec(v, cancelled, elapsed_us).0,
            Step::Finish,
        ),
{
}

} // verus!
