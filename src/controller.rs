use vstd::prelude::*;
use crate::scheduler::{SchedulerView, Step, step_spec};

verus! {

/// Why a playback cannot start.
#[derive(Clone, Copy, Debug, PartialEq, Eq, Structural)]
pub enum PlaybackError {
    AlreadyInProgress,
}

/// The abstract controller state: whether a run holds the handle, whether
/// cancellation is requested, and the number of the latest run.
pub struct PlaybackView {
    pub active: bool,
    pub should_stop: bool,
    pub run: u64,
}

/// The number given to the run after run `r`.
pub open spec fn next_run(r: u64) -> u64 {
    if r < u64::MAX {
        (r + 1) as u64
    } else {
        0
    }
}

/// A start: refused while a playback is active, else a fresh run that is
/// not cancelled.
pub open spec fn start_spec(v: PlaybackView) -> (PlaybackView, Result<u64, PlaybackError>) {
    if v.active {
        (v, Err(PlaybackError::AlreadyInProgress))
    } else {
        (PlaybackView { active: true, should_stop: false, run: next_run(v.run) }, Ok(next_run(v.run)))
    }
}

pub open spec fn stopped(v: PlaybackView) -> PlaybackView {
    PlaybackView { active: false, should_stop: true, run: v.run }
}

/// Run `run` has ended by itself: its handle is cleared, unless a newer run
/// holds it.
pub open spec fn finished(v: PlaybackView, run: u64) -> PlaybackView {
    if v.run == run {
        PlaybackView { active: false, ..v }
    } else {
        v
    }
}

/// Run `run` must stop: cancellation was requested, or a newer run began.
pub open spec fn cancelled_for(v: PlaybackView, run: u64) -> bool {
    v.should_stop || v.run != run
}

/// The state shared by the caller and the thread that runs a playback: the
/// handle of the running playback, if any, and the cancellation flag.
pub struct PlaybackState<H> {
    handle: Option<H>,
    should_stop: bool,
    run: u64,
}

impl<H> View for PlaybackState<H> {
    type V = PlaybackView;

    closed spec fn view(&self) -> PlaybackView {
        PlaybackView { active: self.handle is Some, should_stop: self.should_stop, run: self.run }
    }
}

impl<H> PlaybackState<H> {
    /// An idle state.
    pub fn new() -> (r: PlaybackState<H>)
        ensures
            r@ == (PlaybackView { active: false, should_stop: false, run: 0 }),
    {
        PlaybackState { handle: None, should_stop: false, run: 0 }
    }

    pub fn is_active(&self) -> (r: bool)
        ensures
            r == self@.active,
    {
        self.handle.is_some()
    }

    /// Whether run `run` must stop at its next check.
    pub fn is_cancelled(&self, run: u64) -> (r: bool)
        ensures
            r == cancelled_for(self@, run),
    {
        self.should_stop || self.run != run
    }

    /// Called by run `run` when it has ended by itself.
    pub fn finish_run(&mut self, run: u64)
        ensures
            final(self)@ == finished(old(self)@, run),
    {
        if self.run == run {
            self.handle = None;
        }
    }
}

/// Starts a playback unless one is active: clears the cancellation flag,
/// numbers the new run, calls `spawn` with that number and keeps the handle
/// it returns. While a playback is active, nothing changes and nothing is
/// spawned.
pub fn start_playback<H, F: FnOnce(u64) -> H>(state: &mut PlaybackState<H>, spawn: F) -> (r: Result<
    u64,
    PlaybackError,
>)
    requires
        forall|run: u64| spawn.requires((run,)),
    ensures
        (final(state)@, r) == start_spec(old(state)@),
{
    if state.handle.is_some() {
        return Err(PlaybackError::AlreadyInProgress);
    }
    state.should_stop = false;
    state.run = if state.run < u64::MAX {
        state.run + 1
    } else {
        0
    };
    let handle = spawn(state.run);
    state.handle = Some(handle);
    Ok(state.run)
}

/// Requests cancellation and hands back the handle of the running playback,
/// if any, for the caller to wait on; the state is idle afterwards.
pub fn stop_playback<H>(state: &mut PlaybackState<H>) -> (r: Option<H>)
    ensures
        final(state)@ == stopped(old(state)@),
        r is Some <==> old(state)@.active,
{
    state.should_stop = true;
    state.handle.take()
}

/// Stopping twice leaves the same idle, cancelled state as stopping once,
/// and the second stop finds nothing to wait on.
pub proof fn lemma_stop_idempotent(v: PlaybackView)
    ensures
        stopped(stopped(v)) == stopped(v),
        !stopped(v).active,
{
}

/// A second start while the first run is active is refused and leaves the
/// first run's state as it was; the first run is not cancelled.
pub proof fn lemma_start_exclusive(v: PlaybackView)
    requires
        !v.active,
    ensures
        start_spec(v).1 is Ok,
        start_spec(start_spec(v).0) == (
            start_spec(v).0,
            Err::<u64, PlaybackError>(PlaybackError::AlreadyInProgress),
        ),
        !cancelled_for(start_spec(v).0, start_spec(v).1->Ok_0),
{
}

/// After a stop, every run, the stopped one included, sees cancellation.
pub proof fn lemma_stop_cancels_every_run(v: PlaybackView, run: u64)
    ensures
        cancelled_for(stopped(v), run),
{
}

/// A run that ends by itself after a newer run started leaves the newer
/// run's handle in place, and the older run sees cancellation.
/// Once stopped, a run's scheduler ends at its next step, and fires nothing.
pub proof fn lemma_stop_ends_run(v: PlaybackView, run: u64, s: SchedulerView, elapsed_us: u64)
    ensures
        step_spec(s, cancelled_for(stopped(v), run), elapsed_us).1 == Step::Finish,
{
}

pub proof fn lemma_stale_finish_keeps_newer_run(v: PlaybackView, old_run: u64)
    requires
        v.run != old_run,
    ensures
        finished(v, old_run) == v,
        cancelled_for(v, old_run),
{
}

} // verus!
