//! What the running program decides: one step per completed operation.
//!
//! The program is a set of operations in flight: an accept, a packet capture, a
//! thermal timer and a pulse timer. When one completes, the state here changes
//! and a list of actions says what to do, in order. Doing it is the caller's.

use crate::config::Config;
use crate::single::Single;
use crate::{
    PACKET_VECTOR_SIZE, THERMAL_STATE_CRITICAL, THERMAL_STATE_NORMAL, THERMAL_STATE_WARNING,
};
use vstd::prelude::*;

verus! {

/// Seconds to wait before accepting again after a failed accept, so that a
/// broken listener cannot keep the program busy.
pub const ACCEPT_RETRY_DELAY_SECS: u64 = 1;

/// The size of a capture buffer: what the network looks at.
pub const CAPTURE_BUFFER_BYTES: usize = PACKET_VECTOR_SIZE;

/// Where a frame is written: at the start of the matrix.
pub const FRAMEBUFFER_OFFSET: u64 = 0;

/// Milliseconds between two pulses.
pub const PULSE_INTERVAL_MS: u64 = 350;

/// How many lit pulses are shown after a critical reading before the program
/// stops: a short grace, in which the matrix says why.
pub const CRITICAL_PULSES_BEFORE_EXIT: u8 = 6;

/// Nanoseconds in a millisecond.
pub const NANOS_PER_MS: u128 = 1_000_000;

/// What remains to be done after a completion.
#[derive(Clone, Copy, Debug, PartialEq, Eq)]
pub enum Action {
    /// Accept the next subscriber.
    SubmitAccept,
    /// Accept again after `ACCEPT_RETRY_DELAY_SECS`.
    ScheduleAcceptRetry,
    /// Make the accepted connection a subscriber.
    AdmitClient(i32),
    /// Close the accepted connection.
    CloseClient(i32),
    /// Receive the next packet, in the buffer of the last one or in a new one.
    SubmitCapture { reuse_buffer: bool },
    /// Turn the packet into a frame and show it.
    RenderPacket,
    /// Check the temperature after the check interval.
    ScheduleThermalTick,
    /// Pulse after `PULSE_INTERVAL_MS`.
    SchedulePulse,
    /// Show the lit pulse of a thermal state.
    ShowPulse(u8),
    /// Show a dark matrix.
    ShowClear,
    /// Send the thermal status to the subscribers.
    Publish { state: u8, reading: Option<Single> },
    /// Stop the program.
    Stop,
    /// Say what happened.
    Report(Report),
}

/// What the program says on its console.
#[derive(Clone, Copy, Debug, PartialEq, Eq)]
pub enum Report {
    AcceptFailed,
    ReadFailed,
    FrameWriteFailed,
    /// The list of subscribers cannot be used any more.
    ClientListLocked,
    Critical(Single),
    Warning(Single),
    Recovered(Single),
    NoReading,
    Refused(Submission),
}

/// An operation that can be refused when it is submitted.
#[derive(Clone, Copy, Debug, PartialEq, Eq, Structural)]
pub enum Submission {
    Accept,
    AcceptRetry,
    Capture,
    FrameWrite,
    ThermalTick,
    Pulse,
    StatusSend,
}

/// How an accept ended.
#[derive(Clone, Copy, Debug, PartialEq, Eq, Structural)]
pub enum AcceptOutcome {
    Connected(i32),
    Failed,
}

/// Why a capture failed.
#[derive(Clone, Copy, Debug, PartialEq, Eq, Structural)]
pub enum ReadFailure {
    WouldBlock,
    TimedOut,
    Interrupted,
    Other,
}

/// How a capture ended.
#[derive(Clone, Copy, Debug, PartialEq, Eq, Structural)]
pub enum PacketOutcome {
    Received,
    Failed(ReadFailure),
}

/// The state between completions.
pub struct RuntimeState {
    pub thermal_state: u8,
    pub warned: bool,
    pub pulse_on: bool,
    pub pulse_armed: bool,
    pub critical_pulses_left: u8,
    pub listener: bool,
    pub publisher: bool,
    pub warn_temp_c: Single,
    pub critical_temp_c: Single,
    pub min_frame_interval_ms: u64,
    /// When the last frame was rendered, in nanoseconds.
    pub last_frame_at: Option<u128>,
}

/// The thermal state for a temperature.
pub open spec fn band(reading: Single, warn_temp_c: Single, critical_temp_c: Single) -> u8 {
    if reading.at_least(critical_temp_c) {
        THERMAL_STATE_CRITICAL
    } else if reading.at_least(warn_temp_c) {
        THERMAL_STATE_WARNING
    } else {
        THERMAL_STATE_NORMAL
    }
}

impl RuntimeState {
    /// The thermal state after a check; one that gave no reading changes nothing.
    pub open spec fn state_after(self, reading: Option<Single>) -> u8 {
        match reading {
            Some(temp) => band(temp, self.warn_temp_c, self.critical_temp_c),
            None => self.thermal_state,
        }
    }

    /// The state after a temperature check.
    pub open spec fn after_tick(self, reading: Option<Single>) -> RuntimeState {
        if reading is None {
            self
        } else {
            let b = self.state_after(reading);
            RuntimeState {
                thermal_state: b,
                warned: if b == THERMAL_STATE_CRITICAL {
                    self.warned
                } else {
                    b == THERMAL_STATE_WARNING
                },
                pulse_armed: self.pulse_armed || b != THERMAL_STATE_NORMAL,
                critical_pulses_left: if b == THERMAL_STATE_CRITICAL {
                    CRITICAL_PULSES_BEFORE_EXIT
                } else {
                    self.critical_pulses_left
                },
                ..self
            }
        }
    }

    /// What a check has to say: every critical reading and every failed one, but
    /// a warning or a recovery only when it is new.
    pub open spec fn tick_reports(self, reading: Option<Single>) -> Seq<Action> {
        match reading {
            None => seq![Action::Report(Report::NoReading)],
            Some(temp) => {
                let b = self.state_after(reading);
                if b == THERMAL_STATE_CRITICAL {
                    seq![Action::Report(Report::Critical(temp))]
                } else if b == THERMAL_STATE_WARNING && !self.warned {
                    seq![Action::Report(Report::Warning(temp))]
                } else if b == THERMAL_STATE_NORMAL && self.warned {
                    seq![Action::Report(Report::Recovered(temp))]
                } else {
                    seq![]
                }
            },
        }
    }

    /// Publishing the thermal status: only where there is a publisher.
    pub open spec fn publications(self, reading: Option<Single>) -> Seq<Action> {
        if self.publisher {
            seq![Action::Publish { state: self.thermal_state, reading }]
        } else {
            seq![]
        }
    }

    /// Starting the pulse: only where it is not running.
    pub open spec fn pulse_starts(self) -> Seq<Action> {
        if self.pulse_armed {
            seq![]
        } else {
            seq![Action::SchedulePulse]
        }
    }

    /// The actions of a temperature check. A critical one is the last.
    pub open spec fn tick_actions(self, reading: Option<Single>) -> Seq<Action> {
        let said = self.tick_reports(reading);
        let published = self.after_tick(reading).publications(reading);
        if reading is Some && self.state_after(reading) == THERMAL_STATE_CRITICAL {
            said + published + self.pulse_starts()
        } else if reading is Some && self.state_after(reading) == THERMAL_STATE_WARNING {
            said + self.pulse_starts() + published + seq![Action::ScheduleThermalTick]
        } else {
            said + published + seq![Action::ScheduleThermalTick]
        }
    }

    /// Whether the next pulse is the last lit one of a critical series.
    pub open spec fn last_pulse(self) -> bool {
        self.thermal_state == THERMAL_STATE_CRITICAL && !self.pulse_on && self.critical_pulses_left
            <= 1
    }

    /// The state after a pulse. Of a critical series only the lit ones count.
    pub open spec fn after_pulse(self) -> RuntimeState {
        if self.thermal_state == THERMAL_STATE_NORMAL {
            RuntimeState { pulse_armed: false, pulse_on: false, ..self }
        } else {
            RuntimeState {
                pulse_on: !self.pulse_on,
                critical_pulses_left: if self.thermal_state == THERMAL_STATE_CRITICAL
                    && !self.pulse_on && self.critical_pulses_left > 1 {
                    (self.critical_pulses_left - 1) as u8
                } else {
                    self.critical_pulses_left
                },
                ..self
            }
        }
    }

    /// The actions of a pulse: lit and dark in turn while hot; the last lit one of
    /// a critical series stops the program; after a recovery the matrix goes dark
    /// and the pulse ends.
    pub open spec fn pulse_actions(self) -> Seq<Action> {
        if self.thermal_state == THERMAL_STATE_NORMAL {
            seq![Action::ShowClear]
        } else {
            let shown = if self.pulse_on {
                Action::ShowClear
            } else {
                Action::ShowPulse(self.thermal_state)
            };
            if self.last_pulse() {
                seq![shown, Action::Stop]
            } else {
                seq![shown, Action::SchedulePulse]
            }
        }
    }

    /// Whether a packet that arrives at `now` may become a frame.
    pub open spec fn slot_free(self, now: u128) -> bool {
        ||| self.min_frame_interval_ms == 0
        ||| self.last_frame_at is None
        ||| now - self.last_frame_at->0 >= self.min_frame_interval_ms * NANOS_PER_MS
    }

    /// The state after a packet asked for a frame at `now`.
    pub open spec fn after_claim(self, now: u128) -> RuntimeState {
        if self.min_frame_interval_ms > 0 && self.slot_free(now) {
            RuntimeState { last_frame_at: Some(now), ..self }
        } else {
            self
        }
    }

    /// Whether a capture that ended at `now` becomes a frame.
    pub open spec fn renders(self, outcome: PacketOutcome, now: u128) -> bool {
        outcome == PacketOutcome::Received && self.thermal_state == THERMAL_STATE_NORMAL
            && self.slot_free(now)
    }

    /// The state after a capture.
    pub open spec fn after_packet(self, outcome: PacketOutcome, now: u128) -> RuntimeState {
        if outcome == PacketOutcome::Received && self.thermal_state == THERMAL_STATE_NORMAL {
            self.after_claim(now)
        } else {
            self
        }
    }

    /// The actions of a capture: none once critical; else the next capture, after
    /// a frame or a report where there is one. A capture that only found nothing
    /// to read for the moment is not reported.
    pub open spec fn packet_actions(self, outcome: PacketOutcome, now: u128) -> Seq<Action> {
        if self.thermal_state == THERMAL_STATE_CRITICAL {
            seq![]
        } else {
            let first = if self.renders(outcome, now) {
                seq![Action::RenderPacket]
            } else if outcome == PacketOutcome::Failed(ReadFailure::Other) {
                seq![Action::Report(Report::ReadFailed)]
            } else {
                seq![]
            };
            first.push(Action::SubmitCapture { reuse_buffer: outcome == PacketOutcome::Received })
        }
    }

    /// Accepting: only where there is a listener.
    pub open spec fn accept_starts(self) -> Seq<Action> {
        if self.listener {
            seq![Action::SubmitAccept]
        } else {
            seq![]
        }
    }

    /// The actions of an accept. A failed one is retried later, not at once.
    pub open spec fn accept_actions(self, outcome: AcceptOutcome) -> Seq<Action> {
        match outcome {
            AcceptOutcome::Connected(client) => seq![
                if self.publisher {
                    Action::AdmitClient(client)
                } else {
                    Action::CloseClient(client)
                },
            ] + self.accept_starts(),
            AcceptOutcome::Failed => seq![
                Action::Report(Report::AcceptFailed),
                Action::ScheduleAcceptRetry,
            ],
        }
    }

    /// The state after an operation was refused: without a pulse timer the pulse
    /// is off, and can be started again.
    pub open spec fn after_refused(self, submission: Submission) -> RuntimeState {
        if submission == Submission::Pulse {
            RuntimeState { pulse_armed: false, ..self }
        } else {
            self
        }
    }

    /// The actions after an operation was refused: it is reported, and without
    /// capture or temperature checks the program stops.
    pub open spec fn refused_actions(self, submission: Submission) -> Seq<Action> {
        if submission == Submission::Capture || submission == Submission::ThermalTick {
            seq![Action::Report(Report::Refused(submission)), Action::Stop]
        } else {
            seq![Action::Report(Report::Refused(submission))]
        }
    }

    /// The state in which a configured program starts.
    pub open spec fn initial(config: Config) -> RuntimeState {
        RuntimeState {
            thermal_state: THERMAL_STATE_NORMAL,
            warned: false,
            pulse_on: false,
            pulse_armed: false,
            critical_pulses_left: 0,
            listener: config.signal_socket_path is Some,
            publisher: config.signal_socket_path is Some,
            warn_temp_c: config.warn_temp_c,
            critical_temp_c: config.critical_temp_c,
            min_frame_interval_ms: config.min_frame_interval_ms,
            last_frame_at: None,
        }
    }

    /// What the program starts with.
    pub open spec fn start_actions(self) -> Seq<Action> {
        self.accept_starts() + seq![
            Action::ScheduleThermalTick,
            Action::SubmitCapture { reuse_buffer: false },
        ]
    }

    /// The state of a program that starts now.
    pub fn new(config: &Config) -> (s: Self)
        ensures
            s == RuntimeState::initial(*config),
    {
        let signalling = config.signal_socket_path.is_some();
        RuntimeState {
            thermal_state: THERMAL_STATE_NORMAL,
            warned: false,
            pulse_on: false,
            pulse_armed: false,
            critical_pulses_left: 0,
            listener: signalling,
            publisher: signalling,
            warn_temp_c: config.warn_temp_c,
            critical_temp_c: config.critical_temp_c,
            min_frame_interval_ms: config.min_frame_interval_ms,
            last_frame_at: None,
        }
    }

    /// The first operations: accept, check, capture.
    pub fn start(&self) -> (actions: Vec<Action>)
        ensures
            actions@ == self.start_actions(),
    {
        let mut actions = self.arm_accept();
        actions.push(Action::ScheduleThermalTick);
        actions.push(Action::SubmitCapture { reuse_buffer: false });
        assert(actions@ =~= self.start_actions());
        actions
    }

    /// Accepts the next subscriber, where there is a listener.
    pub fn arm_accept(&self) -> (actions: Vec<Action>)
        ensures
            actions@ == self.accept_starts(),
    {
        let mut actions: Vec<Action> = Vec::new();
        if self.listener {
            actions.push(Action::SubmitAccept);
        }
        assert(actions@ =~= self.accept_starts());
        actions
    }

    /// An accept ended.
    pub fn on_accept(&self, outcome: AcceptOutcome) -> (actions: Vec<Action>)
        ensures
            actions@ == self.accept_actions(outcome),
    {
        let mut actions: Vec<Action> = Vec::new();
        match outcome {
            AcceptOutcome::Connected(client) => {
                if self.publisher {
                    actions.push(Action::AdmitClient(client));
                } else {
                    actions.push(Action::CloseClient(client));
                }
                if self.listener {
                    actions.push(Action::SubmitAccept);
                }
            },
            AcceptOutcome::Failed => {
                actions.push(Action::Report(Report::AcceptFailed));
                actions.push(Action::ScheduleAcceptRetry);
            },
        }
        assert(actions@ =~= self.accept_actions(outcome));
        actions
    }

    /// Whether a packet that arrives at `now` nanoseconds may become a frame; if
    /// so, it takes the slot. A zero interval lets every packet through.
    pub fn claim_frame_slot(&mut self, now: u128) -> (claimed: bool)
        ensures
            claimed == old(self).slot_free(now),
            *final(self) == old(self).after_claim(now),
    {
        if self.min_frame_interval_ms == 0 {
            return true;
        }
        let gap: u128 = self.min_frame_interval_ms as u128 * NANOS_PER_MS;
        match self.last_frame_at {
            Some(previous) => {
                if now < previous || now - previous < gap {
                    return false;
                }
            },
            None => {},
        }
        self.last_frame_at = Some(now);
        true
    }

    /// A capture ended at `now` nanoseconds.
    pub fn on_packet(&mut self, outcome: PacketOutcome, now: u128) -> (actions: Vec<Action>)
        ensures
            actions@ == old(self).packet_actions(outcome, now),
            *final(self) == old(self).after_packet(outcome, now),
    {
        let mut actions: Vec<Action> = Vec::new();
        if self.thermal_state == THERMAL_STATE_CRITICAL {
            return actions;
        }
        let ghost before = *self;
        match outcome {
            PacketOutcome::Received => {
                if self.thermal_state == THERMAL_STATE_NORMAL && self.claim_frame_slot(now) {
                    actions.push(Action::RenderPacket);
                }
                actions.push(Action::SubmitCapture { reuse_buffer: true });
            },
            PacketOutcome::Failed(failure) => {
                match failure {
                    ReadFailure::Other => {
                        actions.push(Action::Report(Report::ReadFailed));
                    },
                    _ => {},
                }
                actions.push(Action::SubmitCapture { reuse_buffer: false });
            },
        }
        assert(actions@ =~= before.packet_actions(outcome, now));
        actions
    }

    /// The thermal status goes out, where there is a publisher.
    pub fn publish(&self, reading: Option<Single>) -> (actions: Vec<Action>)
        ensures
            actions@ == self.publications(reading),
    {
        let mut actions: Vec<Action> = Vec::new();
        if self.publisher {
            actions.push(Action::Publish { state: self.thermal_state, reading });
        }
        assert(actions@ =~= self.publications(reading));
        actions
    }

    /// Starts the pulse, unless it is running.
    pub fn arm_pulse(&mut self) -> (actions: Vec<Action>)
        ensures
            actions@ == old(self).pulse_starts(),
            *final(self) == (RuntimeState { pulse_armed: true, ..*old(self) }),
    {
        let mut actions: Vec<Action> = Vec::new();
        let ghost before = *self;
        if !self.pulse_armed {
            self.pulse_armed = true;
            actions.push(Action::SchedulePulse);
        }
        assert(actions@ =~= before.pulse_starts());
        actions
    }

    /// A temperature check came due and gave `reading`.
    pub fn on_thermal_tick(&mut self, reading: Option<Single>) -> (actions: Vec<Action>)
        ensures
            actions@ == old(self).tick_actions(reading),
            *final(self) == old(self).after_tick(reading),
    {
        let ghost before = *self;
        let mut actions: Vec<Action> = Vec::new();
        match reading {
            Some(temp) => {
                if temp.ge(self.critical_temp_c) {
                    self.thermal_state = THERMAL_STATE_CRITICAL;
                    actions.push(Action::Report(Report::Critical(temp)));
                    self.critical_pulses_left = CRITICAL_PULSES_BEFORE_EXIT;
                    actions.append(&mut self.publish(reading));
                    actions.append(&mut self.arm_pulse());
                    assert(actions@ =~= before.tick_actions(reading));
                    return actions;
                } else if temp.ge(self.warn_temp_c) {
                    self.thermal_state = THERMAL_STATE_WARNING;
                    if !self.warned {
                        self.warned = true;
                        actions.push(Action::Report(Report::Warning(temp)));
                    }
                    actions.append(&mut self.arm_pulse());
                } else {
                    self.thermal_state = THERMAL_STATE_NORMAL;
                    if self.warned {
                        self.warned = false;
                        actions.push(Action::Report(Report::Recovered(temp)));
                    }
                }
            },
            None => {
                actions.push(Action::Report(Report::NoReading));
            },
        }
        actions.append(&mut self.publish(reading));
        actions.push(Action::ScheduleThermalTick);
        assert(actions@ =~= before.tick_actions(reading));
        actions
    }

    /// A pulse came due.
    pub fn on_pulse(&mut self) -> (actions: Vec<Action>)
        ensures
            actions@ == old(self).pulse_actions(),
            *final(self) == old(self).after_pulse(),
    {
        let ghost before = *self;
        let mut actions: Vec<Action> = Vec::new();
        if self.thermal_state == THERMAL_STATE_NORMAL {
            self.pulse_armed = false;
            self.pulse_on = false;
            actions.push(Action::ShowClear);
            assert(actions@ =~= before.pulse_actions());
            return actions;
        }
        let lit = !self.pulse_on;
        self.pulse_on = lit;
        if lit {
            actions.push(Action::ShowPulse(self.thermal_state));
        } else {
            actions.push(Action::ShowClear);
        }
        if lit && self.thermal_state == THERMAL_STATE_CRITICAL {
            if self.critical_pulses_left <= 1 {
                actions.push(Action::Stop);
                assert(actions@ =~= before.pulse_actions());
                return actions;
            }
            self.critical_pulses_left = self.critical_pulses_left - 1;
        }
        actions.push(Action::SchedulePulse);
        assert(actions@ =~= before.pulse_actions());
        actions
    }

    /// An operation was refused when it was submitted.
    pub fn on_refused(&mut self, submission: Submission) -> (actions: Vec<Action>)
        ensures
            actions@ == old(self).refused_actions(submission),
            *final(self) == old(self).after_refused(submission),
    {
        let mut actions: Vec<Action> = Vec::new();
        actions.push(Action::Report(Report::Refused(submission)));
        match submission {
            Submission::Capture | Submission::ThermalTick => {
                actions.push(Action::Stop);
            },
            Submission::Pulse => {
                self.pulse_armed = false;
            },
            _ => {},
        }
        actions
    }
}

} // verus!
