//! The canvas lifecycle controller: a three-state machine that spreads the
//! removal and recreation of the graphics surface over two animation-frame
//! ticks, so the host page gets one full layout pass between the teardown
//! of the old surface and the attachment of the new renderer.

use vstd::prelude::*;

verus! {

/// The phase of a canvas rebuild transition.
///
/// The state strictly cycles `Idle -> TearingDown -> ReadyToRebuild -> Idle`
/// and never skips a step.
#[derive(Clone, Copy, Debug, PartialEq, Eq, Structural)]
pub enum LifecycleState {
    /// No transition in progress; the renderer may run against the current
    /// surface.
    Idle,
    /// The old surface has been removed; rendering is suppressed while the
    /// host settles its layout for one tick.
    TearingDown,
    /// The surface is back; the next tick must recreate the renderer and
    /// return to `Idle`.
    ReadyToRebuild,
}

/// What the shell must do for the current frame, as decided by
/// [`CanvasLifecycle::on_tick`].
#[derive(Clone, Copy, Debug, PartialEq, Eq, Structural)]
pub enum TickAction {
    /// No transition in progress: render normally.
    RenderFrame,
    /// Mid-transition: issue no draw calls this frame.
    SuppressFrame,
    /// Recreate the renderer against the new surface, then report the
    /// outcome through [`CanvasLifecycle::complete_rebuild`].
    RebuildRenderer,
}

/// An input to the state machine: either an explicit rebuild request or one
/// animation-frame tick.
#[derive(Clone, Copy, Debug, PartialEq, Eq, Structural)]
pub enum LifecycleEvent {
    /// A user action or error handler asked for the surface to be rebuilt.
    RebuildRequested,
    /// One animation-frame tick arrived.
    FrameTick,
}

/// The successor state for one event.
///
/// A rebuild request only takes effect from `Idle`; a request arriving
/// mid-transition is ignored, so a transition that has started always runs
/// to completion before a new one can begin.
pub open spec fn next_state(s: LifecycleState, e: LifecycleEvent) -> LifecycleState {
    match e {
        LifecycleEvent::RebuildRequested => match s {
            LifecycleState::Idle => LifecycleState::TearingDown,
            _ => s,
        },
        LifecycleEvent::FrameTick => match s {
            LifecycleState::Idle => LifecycleState::Idle,
            LifecycleState::TearingDown => LifecycleState::ReadyToRebuild,
            LifecycleState::ReadyToRebuild => LifecycleState::Idle,
        },
    }
}

/// The action a tick demands of the shell, as a function of the state the
/// tick found.
pub open spec fn action_for(s: LifecycleState) -> TickAction {
    match s {
        LifecycleState::Idle => TickAction::RenderFrame,
        LifecycleState::TearingDown => TickAction::SuppressFrame,
        LifecycleState::ReadyToRebuild => TickAction::RebuildRenderer,
    }
}

/// The canvas lifecycle controller owned by the application shell.
///
/// Besides the transition phase it remembers whether the renderer survived
/// its last recreation, so the shell can keep the rest of the UI alive with
/// no active game view after a failed rebuild.
pub struct CanvasLifecycle {
    state: LifecycleState,
    renderer_active: bool,
}

impl CanvasLifecycle {
    /// The current phase of the transition cycle.
    pub closed spec fn view(&self) -> LifecycleState {
        self.state
    }

    /// Whether the last renderer recreation (if any) succeeded.
    pub closed spec fn spec_renderer_active(&self) -> bool {
        self.renderer_active
    }

    /// A fresh controller: no transition in flight, renderer considered
    /// active.
    pub fn new() -> (c: CanvasLifecycle)
        ensures
            c@ == LifecycleState::Idle,
            c.spec_renderer_active(),
    {
        CanvasLifecycle { state: LifecycleState::Idle, renderer_active: true }
    }

    /// The current state, for the shell's own dispatch.
    pub fn state(&self) -> (s: LifecycleState)
        ensures
            s == self@,
    {
        self.state
    }

    /// Whether the last renderer recreation (if any) succeeded.
    pub fn renderer_active(&self) -> (r: bool)
        ensures
            r == self.spec_renderer_active(),
    {
        self.renderer_active
    }

    /// Ask for the surface to be torn down and rebuilt.
    ///
    /// From `Idle` this starts a transition; while a transition is already
    /// in flight the request is ignored, so the two-tick sequence always
    /// runs to completion before a new one can begin.
    pub fn request_rebuild(&mut self)
        ensures
            final(self)@ == next_state(old(self)@, LifecycleEvent::RebuildRequested),
            final(self).spec_renderer_active() == old(self).spec_renderer_active(),
    {
        if let LifecycleState::Idle = self.state {
            self.state = LifecycleState::TearingDown;
        }
    }

    /// Advance the state machine by one animation-frame tick, before any
    /// rendering decision for that frame.
    ///
    /// - `Idle`: nothing to do; the caller renders normally.
    /// - `TearingDown`: move to `ReadyToRebuild`; the caller must not
    ///   render this frame.
    /// - `ReadyToRebuild`: return to `Idle`; the caller must now recreate
    ///   the renderer and hand the outcome to
    ///   [`CanvasLifecycle::complete_rebuild`].
    pub fn on_tick(&mut self) -> (a: TickAction)
        ensures
            final(self)@ == next_state(old(self)@, LifecycleEvent::FrameTick),
            a == action_for(old(self)@),
            final(self).spec_renderer_active() == old(self).spec_renderer_active(),
    {
        match self.state {
            LifecycleState::Idle => TickAction::RenderFrame,
            LifecycleState::TearingDown => {
                self.state = LifecycleState::ReadyToRebuild;
                TickAction::SuppressFrame
            },
            LifecycleState::ReadyToRebuild => {
                self.state = LifecycleState::Idle;
                TickAction::RebuildRenderer
            },
        }
    }

    /// Record the outcome of the renderer recreation that a
    /// [`TickAction::RebuildRenderer`] demanded, and say whether the shell
    /// must report an error.
    ///
    /// A failed recreation is not fatal: the state machine is already back
    /// in `Idle`, the UI keeps running with no active game view, and a
    /// later rebuild request may retry. Exactly one report is owed per
    /// failure, none on success.
    pub fn complete_rebuild(&mut self, success: bool) -> (must_report: bool)
        ensures
            final(self)@ == old(self)@,
            final(self).spec_renderer_active() == success,
            must_report == !success,
    {
        self.renderer_active = success;
        !success
    }

    /// Whether the shell may issue draw calls this frame: only while no
    /// transition is in flight. During `TearingDown` the surface is absent;
    /// during `ReadyToRebuild` the surface exists again but the renderer
    /// has not yet been reattached, so drawing must still wait.
    pub fn should_render_frame(&self) -> (r: bool)
        ensures
            r == (self@ == LifecycleState::Idle),
    {
        matches!(self.state, LifecycleState::Idle)
    }

    /// Whether the surface element should be present in the page: it is
    /// detached exactly while the old surface is being torn down.
    pub fn surface_attached(&self) -> (r: bool)
        ensures
            r == (self@ != LifecycleState::TearingDown),
    {
        !matches!(self.state, LifecycleState::TearingDown)
    }
}

/// Render suppression: a frame tick demands a skipped frame exactly when
/// it finds the surface torn down, and demands a normal render exactly
/// when no transition is in flight.
pub proof fn lemma_render_suppression(s: LifecycleState)
    ensures
        (action_for(s) == TickAction::SuppressFrame) <==> (s == LifecycleState::TearingDown),
        (action_for(s) == TickAction::RenderFrame) <==> (s == LifecycleState::Idle),
{
}

/// An idle tick is invisible: a frame tick that finds the controller
/// `Idle` leaves it `Idle` and demands a normal render.
pub proof fn lemma_idle_tick_idempotent()
    ensures
        next_state(LifecycleState::Idle, LifecycleEvent::FrameTick) == LifecycleState::Idle,
        action_for(LifecycleState::Idle) == TickAction::RenderFrame,
{
}

/// No stuck transition: the rebuild tick returns the controller to `Idle`
/// before the recreation outcome is even known, so a failed recreation
/// leaves the cycle complete; [`CanvasLifecycle::complete_rebuild`] then
/// owes exactly one report for a failure and none for a success.
pub proof fn lemma_rebuild_tick_returns_idle()
    ensures
        next_state(LifecycleState::ReadyToRebuild, LifecycleEvent::FrameTick)
            == LifecycleState::Idle,
        action_for(LifecycleState::ReadyToRebuild) == TickAction::RebuildRenderer,
{
}

/// The sequence of distinct states a fresh controller passes through while
/// it consumes `events`, oldest first, starting with the initial `Idle`.
/// An event that leaves the state unchanged adds nothing.
pub open spec fn visited(events: Seq<LifecycleEvent>) -> Seq<LifecycleState>
    decreases events.len(),
{
    if events.len() == 0 {
        seq![LifecycleState::Idle]
    } else {
        let prev = visited(events.drop_last());
        let s = next_state(prev.last(), events.last());
        if s == prev.last() {
            prev
        } else {
            prev.push(s)
        }
    }
}

/// The states of `t` that are not `Idle`, in order.
pub open spec fn non_idle(t: Seq<LifecycleState>) -> Seq<LifecycleState>
    decreases t.len(),
{
    if t.len() == 0 {
        Seq::empty()
    } else if t.last() == LifecycleState::Idle {
        non_idle(t.drop_last())
    } else {
        non_idle(t.drop_last()).push(t.last())
    }
}

/// `t` is an alternation `TearingDown, ReadyToRebuild, TearingDown, ...`
/// beginning with `TearingDown` (any prefix of such an alternation counts).
pub open spec fn alternates_teardown_rebuild(t: Seq<LifecycleState>) -> bool {
    forall|i: int|
        0 <= i < t.len() ==> t[i] == (if i % 2 == 0 {
            LifecycleState::TearingDown
        } else {
            LifecycleState::ReadyToRebuild
        })
}

/// The state changes the controller can make: into `TearingDown` only from
/// `Idle`, into `ReadyToRebuild` only from `TearingDown`, and out of
/// `ReadyToRebuild` only back to `Idle`.
pub open spec fn allowed_change(from: LifecycleState, to: LifecycleState) -> bool {
    match to {
        LifecycleState::Idle => from == LifecycleState::ReadyToRebuild,
        LifecycleState::TearingDown => from == LifecycleState::Idle,
        LifecycleState::ReadyToRebuild => from == LifecycleState::TearingDown,
    }
}

proof fn lemma_visited_invariant(events: Seq<LifecycleEvent>)
    ensures
        visited(events).len() >= 1,
        visited(events)[0] == LifecycleState::Idle,
        forall|i: int|
            0 < i < visited(events).len() ==> allowed_change(
                visited(events)[i - 1],
                #[trigger] visited(events)[i],
            ),
        alternates_teardown_rebuild(non_idle(visited(events))),
        visited(events).last() == LifecycleState::Idle ==> non_idle(visited(events)).len() % 2
            == 0,
        visited(events).last() == LifecycleState::TearingDown ==> non_idle(visited(events)).len()
            % 2 == 1,
        visited(events).last() == LifecycleState::ReadyToRebuild ==> non_idle(
            visited(events),
        ).len() % 2 == 0 && non_idle(visited(events)).len() > 0,
    decreases events.len(),
{
    if events.len() == 0 {
        let v = visited(events);
        assert(v == seq![LifecycleState::Idle]);
        assert(v.drop_last() =~= Seq::<LifecycleState>::empty());
        assert(non_idle(v.drop_last()) =~= Seq::<LifecycleState>::empty());
        assert(non_idle(v) =~= Seq::<LifecycleState>::empty());
    } else {
        let prev = visited(events.drop_last());
        lemma_visited_invariant(events.drop_last());
        let s = next_state(prev.last(), events.last());
        if s == prev.last() {
            assert(visited(events) == prev);
        } else {
            let v = prev.push(s);
            assert(visited(events) == v);
            assert(v.drop_last() =~= prev);
            assert(v.last() == s);
            assert(forall|i: int|
                0 < i < v.len() - 1 ==> allowed_change(v[i - 1], #[trigger] v[i]) == allowed_change(
                    prev[i - 1],
                    prev[i],
                ));
            assert(v[v.len() - 2] == prev.last());
            assert(allowed_change(prev.last(), s));
            if s == LifecycleState::Idle {
                assert(non_idle(v) == non_idle(prev));
            } else {
                assert(non_idle(v) == non_idle(prev).push(s));
                let f = non_idle(prev);
                assert(prev.last() != s);
                if s == LifecycleState::TearingDown {
                    assert(prev.last() == LifecycleState::Idle);
                    assert(f.len() % 2 == 0);
                    assert(f.push(s)[f.len() as int] == LifecycleState::TearingDown);
                } else {
                    assert(prev.last() == LifecycleState::TearingDown);
                    assert(f.len() % 2 == 1);
                    assert(f.push(s)[f.len() as int] == LifecycleState::ReadyToRebuild);
                }
                assert(forall|i: int| 0 <= i < f.len() ==> #[trigger] f.push(s)[i] == f[i]);
            }
        }
    }
}

/// State-cycle invariant. Run a fresh controller over any sequence of
/// rebuild requests and frame ticks: the distinct states it passes
/// through, with the `Idle` occurrences removed, form an alternation
/// `TearingDown, ReadyToRebuild, TearingDown, ...` beginning with
/// `TearingDown`. Moreover every state change is one of the three legal
/// ones, so the controller never observes a teardown twice in a row nor a
/// `ReadyToRebuild` that a `TearingDown` did not precede.
pub proof fn lemma_state_cycle(events: Seq<LifecycleEvent>)
    ensures
        alternates_teardown_rebuild(non_idle(visited(events))),
        forall|i: int|
            0 < i < visited(events).len() ==> allowed_change(
                visited(events)[i - 1],
                #[trigger] visited(events)[i],
            ),
{
    lemma_visited_invariant(events);
}

} // verus!
