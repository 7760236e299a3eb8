//! The display's life cycle: idle, running, loading an upload, or in
//! error, driven by events.
//!
//! ```text
//!   Idle ──Start──▶ Running ──Stop──▶ Idle
//!   Idle/Running ──Upload──▶ Loading ──Start──▶ Running
//!   Idle/Running/Loading ──Fault──▶ Error ──Reset──▶ Idle
//! ```
//! Any other event leaves the state as it is.

use vstd::prelude::*;

verus! {

/// Events driving the life cycle.
#[derive(Debug, Clone, Copy, PartialEq, Eq, Structural)]
pub enum Event {
    Start,
    Stop,
    Upload,
    Fault,
    Reset,
}

/// The states of the life cycle.
#[derive(Debug, Clone, Copy, PartialEq, Eq, Structural)]
pub enum Phase {
    /// Motor stopped, nothing shown.
    Idle,
    /// Spinning and showing frames.
    Running,
    /// Handling an upload; the display pauses.
    Loading,
    /// A fault occurred; only `Reset` leaves it.
    Error,
}

/// The state reached from `phase` on `event`.
pub open spec fn next_phase(phase: Phase, event: Event) -> Phase {
    match (phase, event) {
        (Phase::Idle, Event::Start) => Phase::Running,
        (Phase::Idle, Event::Upload) => Phase::Loading,
        (Phase::Idle, Event::Fault) => Phase::Error,
        (Phase::Running, Event::Stop) => Phase::Idle,
        (Phase::Running, Event::Upload) => Phase::Loading,
        (Phase::Running, Event::Fault) => Phase::Error,
        (Phase::Loading, Event::Start) => Phase::Running,
        (Phase::Loading, Event::Fault) => Phase::Error,
        (Phase::Error, Event::Reset) => Phase::Idle,
        _ => phase,
    }
}

/// The name reported for a state.
pub open spec fn phase_name(phase: Phase) -> Seq<char> {
    match phase {
        Phase::Idle => "idle"@,
        Phase::Running => "running"@,
        Phase::Loading => "loading"@,
        Phase::Error => "error"@,
    }
}

/// The data shared by the states (none).
#[derive(Default)]
pub struct PovSystem;

impl PovSystem {
    /// The state reached from `phase` on `event`.
    pub fn transition(&mut self, phase: Phase, event: &Event) -> (next: Phase)
        ensures
            next == next_phase(phase, *event),
    {
        match phase {
            Phase::Idle => match event {
                Event::Start => Phase::Running,
                Event::Upload => Phase::Loading,
                Event::Fault => Phase::Error,
                _ => phase,
            },
            Phase::Running => match event {
                Event::Stop => Phase::Idle,
                Event::Upload => Phase::Loading,
                Event::Fault => Phase::Error,
                _ => phase,
            },
            Phase::Loading => match event {
                Event::Start => Phase::Running,
                Event::Fault => Phase::Error,
                _ => phase,
            },
            Phase::Error => match event {
                Event::Reset => Phase::Idle,
                _ => phase,
            },
        }
    }
}

/// The life-cycle state machine, starting idle.
pub struct PovState {
    system: PovSystem,
    phase: Phase,
}

impl PovState {
    /// The current state.
    pub closed spec fn phase(&self) -> Phase {
        self.phase
    }

    pub fn new() -> (s: Self)
        ensures
            s.phase() == Phase::Idle,
    {
        PovState { system: PovSystem, phase: Phase::Idle }
    }

    /// Feeds an event to the state machine.
    pub fn handle(&mut self, event: &Event)
        ensures
            final(self).phase() == next_phase(old(self).phase(), *event),
    {
        self.phase = self.system.transition(self.phase, event);
    }

    /// The current state.
    pub fn current(&self) -> (p: Phase)
        ensures
            p == self.phase(),
    {
        self.phase
    }

    /// The name of the current state.
    pub fn state_name(&self) -> (name: &'static str)
        ensures
            name@ == phase_name(self.phase()),
    {
        match self.phase {
            Phase::Idle => "idle",
            Phase::Running => "running",
            Phase::Loading => "loading",
            Phase::Error => "error",
        }
    }

    /// Whether the display is running (showing frames).
    pub fn is_running(&self) -> (r: bool)
        ensures
            r == (self.phase() == Phase::Running),
    {
        self.phase == Phase::Running
    }

    /// Whether an upload is loading (the display should pause).
    pub fn is_loading(&self) -> (r: bool)
        ensures
            r == (self.phase() == Phase::Loading),
    {
        self.phase == Phase::Loading
    }
}

impl Default for PovState {
    fn default() -> (s: Self)
        ensures
            s.phase() == Phase::Idle,
    {
        PovState::new()
    }
}

/// Only `Stop` takes a running display to idle; `Start` and `Reset` leave
/// it running; `Upload` pauses it and `Fault` stops it in error.
pub proof fn lemma_running_transitions(event: Event)
    ensures
        next_phase(Phase::Running, event) == Phase::Idle <==> event == Event::Stop,
        next_phase(Phase::Running, event) == Phase::Running <==> (event == Event::Start || event
            == Event::Reset),
        next_phase(Phase::Running, Event::Upload) == Phase::Loading,
{
}

/// Idle leaves only on `Start` (to running), `Upload` (to loading) or
/// `Fault` (to error); loading leaves only on `Start` (to running) or
/// `Fault` (to error).
pub proof fn lemma_idle_and_loading_transitions(event: Event)
    ensures
        next_phase(Phase::Idle, event) == Phase::Idle <==> (event == Event::Stop || event
            == Event::Reset),
        next_phase(Phase::Idle, Event::Start) == Phase::Running,
        next_phase(Phase::Loading, event) == Phase::Loading <==> (event == Event::Stop || event
            == Event::Upload || event == Event::Reset),
        next_phase(Phase::Loading, Event::Start) == Phase::Running,
{
}

/// A fault always ends in the error state, whatever the state before.
pub proof fn lemma_fault_leads_to_error(phase: Phase)
    ensures
        next_phase(phase, Event::Fault) == Phase::Error,
{
}

/// The error state is left by `Reset` alone, which leads to idle.
pub proof fn lemma_error_left_only_by_reset(event: Event)
    ensures
        next_phase(Phase::Error, event) == (if event == Event::Reset { Phase::Idle } else { Phase::Error }),
{
}

/// `Reset` changes nothing outside the error state.
pub proof fn lemma_reset_only_from_error(phase: Phase)
    requires
        phase != Phase::Error,
    ensures
        next_phase(phase, Event::Reset) == phase,
{
}

/// An upload from idle or running pauses the display in `Loading`, and the
/// `Start` sent when the upload is done resumes it in `Running`.
pub proof fn lemma_upload_then_start_resumes(phase: Phase)
    requires
        phase == Phase::Idle || phase == Phase::Running,
    ensures
        next_phase(phase, Event::Upload) == Phase::Loading,
        next_phase(next_phase(phase, Event::Upload), Event::Start) == Phase::Running,
{
}

/// An upload leaves the error state as it is.
pub proof fn lemma_upload_ignored_in_error()
    ensures
        next_phase(Phase::Error, Event::Upload) == Phase::Error,
        next_phase(next_phase(Phase::Error, Event::Upload), Event::Start) == Phase::Error,
{
}

} // verus!
