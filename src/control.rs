use vstd::prelude::*;

verus! {

/// How long a banner stays on the screen, in milliseconds.
pub const DWELL_MS: u64 = 5000;

/// Length of one tick of the running loop, in milliseconds.
pub const TICK_MS: u64 = 1;

/// How long each tick waits for the shutdown notification, in milliseconds.
pub const POLL_TIMEOUT_MS: u64 = 1;

/// Time between two renders of the main screen, in milliseconds.
pub const RENDER_PERIOD_MS: u64 = 200;

/// Exit status of a clean shutdown.
pub const EXIT_OK: i32 = 0;

/// Exit status after a failure.
pub const EXIT_FAILURE: i32 = 1;

#[derive(Clone, Copy, Debug, PartialEq, Eq, Structural)]
pub enum Phase {
    Startup,
    Running,
    Draining,
    Stopped,
}

/// What the bounded wait on the shutdown channel gave.
#[derive(Clone, Copy, Debug, PartialEq, Eq, Structural)]
pub enum Signal {
    /// Nothing arrived before the timeout.
    Pending,
    /// The notification arrived.
    Received,
    /// The sending side is gone.
    Disconnected,
}

#[derive(Clone, Copy, Debug, PartialEq, Eq, Structural)]
pub enum Banner {
    Welcome,
    Goodbye,
}

/// What happened since the last action; times are milliseconds of a monotonic clock.
#[derive(Clone, Copy, Debug, PartialEq, Eq, Structural)]
pub enum Event {
    /// The display is initialized.
    Started,
    /// The screen was cleared.
    Cleared,
    /// A banner was shown and its dwell time is over.
    BannerShown { now: u64 },
    /// A tick's wait on the shutdown channel is over.
    Tick { now: u64, signal: Signal },
    /// The main screen was rendered.
    Rendered { now: u64 },
    /// The last action failed.
    Failed,
}

/// What the loop is to do next.
#[derive(Clone, Copy, Debug, PartialEq, Eq, Structural)]
pub enum Action {
    ClearScreen,
    /// Show the banner, then wait `DWELL_MS`.
    ShowBanner(Banner),
    /// Render the main screen.
    Render,
    /// Sleep `TICK_MS`, then wait up to `POLL_TIMEOUT_MS` on the shutdown channel.
    Wait,
    /// End the process with this status.
    Exit(i32),
}

/// The control loop's state: its phase, and when the main screen was last rendered.
#[derive(Clone, Copy, Debug, PartialEq, Eq, Structural)]
pub struct Controller {
    pub phase: Phase,
    pub last_render: u64,
}

/// Whether a render is due at `now`, the last one having been at `last`.
pub open spec fn render_due(last: u64, now: u64) -> bool {
    now >= last && now - last >= RENDER_PERIOD_MS
}

/// The next state and action after `e` in state `c`. An event that the phase does not
/// expect changes nothing.
pub open spec fn step(c: Controller, e: Event) -> (Controller, Action) {
    match (c.phase, e) {
        (Phase::Stopped, _) => (c, Action::Wait),
        (_, Event::Failed) => (
            Controller { phase: Phase::Stopped, ..c },
            Action::Exit(EXIT_FAILURE),
        ),
        (Phase::Startup, Event::Started) => (c, Action::ClearScreen),
        (Phase::Startup, Event::Cleared) => (c, Action::ShowBanner(Banner::Welcome)),
        (Phase::Startup, Event::BannerShown { now }) => (
            Controller { phase: Phase::Running, last_render: now },
            Action::Wait,
        ),
        (Phase::Running, Event::Tick { now, signal }) => if signal != Signal::Pending {
            (Controller { phase: Phase::Draining, ..c }, Action::ShowBanner(Banner::Goodbye))
        } else if render_due(c.last_render, now) {
            (c, Action::Render)
        } else {
            (c, Action::Wait)
        },
        (Phase::Running, Event::Rendered { now }) => (
            Controller { last_render: now, ..c },
            Action::Wait,
        ),
        (Phase::Draining, Event::BannerShown { .. }) => (c, Action::ClearScreen),
        (Phase::Draining, Event::Cleared) => (
            Controller { phase: Phase::Stopped, ..c },
            Action::Exit(EXIT_OK),
        ),
        _ => (c, Action::Wait),
    }
}

/// The states and actions after the events `es`, in order, from `c`.
pub open spec fn run(c: Controller, es: Seq<Event>) -> (Controller, Seq<Action>)
    decreases es.len(),
{
    if es.len() == 0 {
        (c, Seq::empty())
    } else {
        let (c1, a) = step(c, es[0]);
        let (c2, rest) = run(c1, es.drop_first());
        (c2, seq![a] + rest)
    }
}

impl Controller {
    pub fn new() -> (r: Controller)
        ensures
            r.phase == Phase::Startup,
    {
        Controller { phase: Phase::Startup, last_render: 0 }
    }

    /// Takes in `e`, and says what to do next.
    pub fn handle(&mut self, e: Event) -> (a: Action)
        ensures
            (*final(self), a) == step(*old(self), e),
    {
        match (self.phase, e) {
            (Phase::Stopped, _) => Action::Wait,
            (_, Event::Failed) => {
                self.phase = Phase::Stopped;
                Action::Exit(EXIT_FAILURE)
            },
            (Phase::Startup, Event::Started) => Action::ClearScreen,
            (Phase::Startup, Event::Cleared) => Action::ShowBanner(Banner::Welcome),
            (Phase::Startup, Event::BannerShown { now }) => {
                self.phase = Phase::Running;
                self.last_render = now;
                Action::Wait
            },
            (Phase::Running, Event::Tick { now, signal }) => {
                if signal != Signal::Pending {
                    self.phase = Phase::Draining;
                    Action::ShowBanner(Banner::Goodbye)
                } else if now >= self.last_render && now - self.last_render >= RENDER_PERIOD_MS {
                    Action::Render
                } else {
                    Action::Wait
                }
            },
            (Phase::Running, Event::Rendered { now }) => {
                self.last_render = now;
                Action::Wait
            },
            (Phase::Draining, Event::BannerShown { .. }) => Action::ClearScreen,
            (Phase::Draining, Event::Cleared) => {
                self.phase = Phase::Stopped;
                Action::Exit(EXIT_OK)
            },
            _ => Action::Wait,
        }
    }
}

/// Shutdown: while running, the tick whose wait brings the notification (or finds the
/// channel gone) starts draining at once, with no further render; the goodbye banner is
/// shown once, the screen is cleared once, and the loop stops with status zero, after
/// which it asks for nothing more.
pub proof fn shutdown_law(c: Controller, now: u64, signal: Signal, shown: u64, later: Seq<Event>)
    requires
        c.phase == Phase::Running,
        signal != Signal::Pending,
    ensures
        ({
            let es = seq![
                Event::Tick { now, signal },
                Event::BannerShown { now: shown },
                Event::Cleared,
            ] + later;
            let (end, actions) = run(c, es);
            &&& actions.len() == es.len()
            &&& actions[0] == Action::ShowBanner(Banner::Goodbye)
            &&& actions[1] == Action::ClearScreen
            &&& actions[2] == Action::Exit(EXIT_OK)
            &&& end.phase == Phase::Stopped
            &&& forall|i: int| 3 <= i < actions.len() ==> actions[i] == Action::Wait
        }),
{
    let es = seq![Event::Tick { now, signal }, Event::BannerShown { now: shown }, Event::Cleared]
        + later;
    let e1 = es.drop_first();
    let e2 = e1.drop_first();
    assert(e1 =~= seq![Event::BannerShown { now: shown }, Event::Cleared] + later);
    assert(e2 =~= seq![Event::Cleared] + later);
    assert(e2.drop_first() =~= later);
    let c1 = step(c, es[0]).0;
    let c2 = step(c1, e1[0]).0;
    let c3 = step(c2, e2[0]).0;
    lemma_stopped_stays(c3, later);
    let r3 = run(c3, later);
    let r2 = run(c2, e2);
    let r1 = run(c1, e1);
    let r0 = run(c, es);
    assert(r2.1 == seq![Action::Exit(EXIT_OK)] + r3.1);
    assert(r1.1 == seq![Action::ClearScreen] + r2.1);
    assert(r0.1 == seq![Action::ShowBanner(Banner::Goodbye)] + r1.1);
    assert forall|i: int| 3 <= i < r0.1.len() implies r0.1[i] == Action::Wait by {
        assert(r0.1[i] == r3.1[i - 3]);
    }
}

/// Once stopped, the loop stays stopped and asks only to wait.
pub proof fn lemma_stopped_stays(c: Controller, es: Seq<Event>)
    requires
        c.phase == Phase::Stopped,
    ensures
        run(c, es).0 == c,
        run(c, es).1.len() == es.len(),
        forall|i: int| 0 <= i < es.len() ==> run(c, es).1[i] == Action::Wait,
    decreases es.len(),
{
    if es.len() > 0 {
        lemma_stopped_stays(c, es.drop_first());
        assert forall|i: int| 0 <= i < es.len() implies run(c, es).1[i] == Action::Wait by {
            if i > 0 {
                assert(run(c, es).1[i] == run(c, es.drop_first()).1[i - 1]);
            }
        }
    }
}

/// While running and with no notification, a tick never ends the loop; it renders exactly
/// when the render period has passed since the last render.
pub proof fn running_tick_law(c: Controller, now: u64)
    requires
        c.phase == Phase::Running,
    ensures
        step(c, Event::Tick { now, signal: Signal::Pending }).0 == c,
        step(c, Event::Tick { now, signal: Signal::Pending }).1 == (if render_due(
            c.last_render,
            now,
        ) {
            Action::Render
        } else {
            Action::Wait
        }),
{
}

} // verus!
