//! The control protocol and the execution driver's decision logic.
//!
//! A session owns at most one live simulation. Inbound `Query` messages
//! drive a small state machine: `Start` is only legal when idle, `Update`,
//! `Pause` and `Resume` only while running, and `Stop` is always accepted
//! and idempotent. The simulation side is a second state machine,
//! `SimSession`: once per tick it takes at most one control event and
//! decides whether to finish, stop, sleep while paused, or step the
//! simulation once. The surrounding thread and channel plumbing performs
//! these decisions; every decision itself is made here.

use vstd::prelude::*;

use crate::config::Config;
use crate::graph::GraphData;
use crate::population::State;
use crate::stages::step;

verus! {

/// An inbound control message for one session.
#[derive(Clone, Debug)]
pub enum Query {
    Stop,
    Start(Config),
    Pause,
    Resume,
    Update(Config),
}

/// A control message forwarded from the session to its simulation thread.
#[derive(Clone, Copy, Debug, PartialEq, Eq, Structural)]
pub enum Notification {
    Pause,
    Resume,
    Update(Config),
}

/// Why a query was refused.
#[derive(Clone, Copy, Debug, PartialEq, Eq, Structural)]
pub enum ProtocolError {
    /// `Start` arrived while a simulation was already running.
    AlreadyRunning,
    /// `Update`, `Pause` or `Resume` arrived before any `Start`.
    NotRunning,
}

impl ProtocolError {
    /// The message shown to the session's user.
    pub fn message(&self) -> (r: String) {
        match self {
            ProtocolError::AlreadyRunning => "A simulation is already running; stop it first."
                .to_owned(),
            ProtocolError::NotRunning => "No simulation is running; start one first.".to_owned(),
        }
    }
}

/// An outbound message for one session.
#[derive(Clone, Debug)]
pub enum Response {
    Stopped,
    Started,
    Info(String),
    State(u64, GraphData),
    Error(ProtocolError),
}

/// What the transport must do after a query was handled.
#[derive(Clone, Debug)]
pub enum Action {
    /// Spawn a simulation thread with this configuration.
    Spawn(Config),
    /// Forward this notification to the running simulation thread.
    Notify(Notification),
    /// Send this response back; nothing is forwarded or spawned.
    Reply(Response),
}

/// One session's view of its simulation lifecycle.
#[derive(Clone, Copy, Debug, PartialEq, Eq, Structural)]
pub struct Session {
    /// Whether a simulation thread is currently attached.
    pub running: bool,
}

impl Session {
    /// A fresh session with no simulation attached.
    pub fn new() -> (s: Session)
        ensures
            !s.running,
    {
        Session { running: false }
    }

    /// Applies the sequencing rules to one query. `Start` spawns when idle
    /// and is refused while running; `Update`, `Pause` and `Resume` are
    /// forwarded while running and refused when idle; `Stop` always
    /// detaches and acknowledges, so stopping twice is harmless.
    pub fn handle_query(&mut self, q: Query) -> (a: Action)
        ensures
            q matches Query::Start(c) ==> ({
                &&& !old(self).running ==> final(self).running && a == Action::Spawn(c)
                &&& old(self).running ==> *final(self) == *old(self) && a == Action::Reply(
                    Response::Error(ProtocolError::AlreadyRunning),
                )
            }),
            q matches Query::Stop ==> !final(self).running && a == Action::Reply(
                Response::Stopped,
            ),
            q matches Query::Update(c) ==> old(self).running ==> *final(self) == *old(self) && a
                == Action::Notify(Notification::Update(c)),
            q matches Query::Pause && old(self).running ==> *final(self) == *old(self) && a
                == Action::Notify(Notification::Pause),
            q matches Query::Resume && old(self).running ==> *final(self) == *old(self) && a
                == Action::Notify(Notification::Resume),
            !(q matches Query::Start(_)) && !(q matches Query::Stop) && !old(self).running
                ==> *final(self) == *old(self) && a == Action::Reply(
                Response::Error(ProtocolError::NotRunning),
            ),
    {
        match q {
            Query::Start(c) => {
                if self.running {
                    Action::Reply(Response::Error(ProtocolError::AlreadyRunning))
                } else {
                    self.running = true;
                    Action::Spawn(c)
                }
            },
            Query::Stop => {
                self.running = false;
                Action::Reply(Response::Stopped)
            },
            Query::Update(c) => {
                if self.running {
                    Action::Notify(Notification::Update(c))
                } else {
                    Action::Reply(Response::Error(ProtocolError::NotRunning))
                }
            },
            Query::Pause => {
                if self.running {
                    Action::Notify(Notification::Pause)
                } else {
                    Action::Reply(Response::Error(ProtocolError::NotRunning))
                }
            },
            Query::Resume => {
                if self.running {
                    Action::Notify(Notification::Resume)
                } else {
                    Action::Reply(Response::Error(ProtocolError::NotRunning))
                }
            },
        }
    }
}

/// What the simulation thread found on its control channel this tick.
#[derive(Clone, Copy, Debug, PartialEq, Eq, Structural)]
pub enum Control {
    /// Nothing was queued.
    Empty,
    /// The session hung up; treat it as a stop.
    Disconnected,
    /// One queued notification.
    Message(Notification),
}

/// What the simulation thread must do after one poll of its channel.
#[derive(Clone, Copy, Debug, PartialEq, Eq, Structural)]
pub enum TickOutcome {
    /// The tick ceiling was passed: report normal completion and exit.
    Finished,
    /// The session hung up: report the stop and exit.
    Stopped,
    /// Paused: sleep briefly instead of stepping.
    Slept,
    /// One simulation tick was run.
    Stepped,
}

/// The configuration after one control event is applied.
pub open spec fn applied_config(cfg: Config, ctrl: Control) -> Config {
    match ctrl {
        Control::Message(Notification::Update(c)) => c,
        _ => cfg,
    }
}

/// The pause flag after one control event is applied.
pub open spec fn applied_paused(paused: bool, ctrl: Control) -> bool {
    match ctrl {
        Control::Message(Notification::Pause) => true,
        Control::Message(Notification::Resume) => false,
        _ => paused,
    }
}

/// The state a simulation thread owns: the population, the live
/// configuration, the pause flag, and the tick ceiling.
#[derive(Clone, Debug)]
pub struct SimSession {
    pub state: State,
    pub config: Config,
    pub paused: bool,
    pub t_max: u64,
}

impl SimSession {
    /// The session invariant: a well-formed population, a well-formed
    /// configuration, and a ceiling the tick counter can pass.
    pub open spec fn wf(&self) -> bool {
        &&& self.state.wf()
        &&& self.config.wf()
        &&& self.t_max < u64::MAX
    }

    /// Wraps a freshly initialized state. A missing ceiling leaves the
    /// run effectively unlimited.
    pub fn new(state: State, config: Config, t_max: Option<u64>) -> (s: SimSession)
        requires
            state.wf(),
            config.wf(),
        ensures
            s.wf(),
            s.state == state,
            s.config == config,
            !s.paused,
    {
        let ceiling: u64 = match t_max {
            Some(t) => if t < u64::MAX {
                t
            } else {
                u64::MAX - 1
            },
            None => u64::MAX - 1,
        };
        SimSession { state, config, paused: false, t_max: ceiling }
    }

    /// One turn of the simulation loop: past the ceiling the run finishes;
    /// a hangup stops it; otherwise the control event is applied first —
    /// `Update` replaces the configuration, `Pause` and `Resume` toggle
    /// the flag — and then the thread either sleeps (paused) or runs
    /// exactly one tick, which preserves every patch's population size.
    pub fn sim_tick(&mut self, ctrl: Control) -> (o: TickOutcome)
        requires
            old(self).wf(),
            applied_config(old(self).config, ctrl).wf(),
        ensures
            final(self).wf(),
            final(self).t_max == old(self).t_max,
            old(self).state.tick > old(self).t_max ==> o == TickOutcome::Finished && *final(self)
                == *old(self),
            old(self).state.tick <= old(self).t_max && ctrl is Disconnected ==> o
                == TickOutcome::Stopped && *final(self) == *old(self),
            old(self).state.tick <= old(self).t_max && !(ctrl is Disconnected) ==> final(self).config == applied_config(old(self).config, ctrl) && final(self).paused
                == applied_paused(old(self).paused, ctrl),
            old(self).state.tick <= old(self).t_max && !(ctrl is Disconnected) && applied_paused(
                old(self).paused,
                ctrl,
            ) ==> o == TickOutcome::Slept && final(self).state == old(self).state,
            old(self).state.tick <= old(self).t_max && !(ctrl is Disconnected) && !applied_paused(
                old(self).paused,
                ctrl,
            ) ==> o == TickOutcome::Stepped && final(self).state.tick == old(self).state.tick + 1
                && final(self).state.patches@.len() == old(self).state.patches@.len() && (forall|
                p: int|
                0 <= p < final(self).state.patches@.len()
                    ==> (#[trigger] final(self).state.patches@[p]).0.individuals@.len()
                    == old(self).state.patches@[p].0.individuals@.len()) && final(self).state.diploid == old(self).state.diploid && final(self).state.loci == old(self).state.loci,
    {
        if self.state.tick > self.t_max {
            return TickOutcome::Finished;
        }
        match ctrl {
            Control::Disconnected => {
                return TickOutcome::Stopped;
            },
            Control::Message(Notification::Update(c)) => {
                self.config = c;
            },
            Control::Message(Notification::Pause) => {
                self.paused = true;
            },
            Control::Message(Notification::Resume) => {
                self.paused = false;
            },
            Control::Empty => {},
        }
        if self.paused {
            return TickOutcome::Slept;
        }
        step(&mut self.state, &self.config);
        TickOutcome::Stepped
    }
}

} // verus!
