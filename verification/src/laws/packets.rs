//! Captured packets, accepted connections and the start.

use crate::config::Config;
use crate::runtime::{
    AcceptOutcome, Action, PacketOutcome, ReadFailure, Report, RuntimeState,
    ACCEPT_RETRY_DELAY_SECS, CAPTURE_BUFFER_BYTES, FRAMEBUFFER_OFFSET, PULSE_INTERVAL_MS,
};
use vstd::prelude::*;

verus! {

/// Whether a frame is due at `now`: without a minimum interval always, else
/// where none was rendered yet, or the last one is at least the interval ago,
/// however long that is.
pub open spec fn frame_is_due(s: RuntimeState, now: u128) -> bool {
    s.min_frame_interval_ms == 0 || s.last_frame_at is None || (s.last_frame_at matches Some(last)
        && last + 1_000_000 * s.min_frame_interval_ms <= now)
}

/// A packet that comes in on a cool board when a frame is due becomes one, and
/// its time is noted where frames have an interval.
pub proof fn due_packet_becomes_a_frame(s: &mut RuntimeState, now: u128, actions: Vec<Action>)
    requires
        call_ensures(RuntimeState::on_packet, (s, PacketOutcome::Received, now), actions),
        old(s).thermal_state == 0,
        frame_is_due(*old(s), now),
    ensures
        actions@ == seq![Action::RenderPacket, Action::SubmitCapture { reuse_buffer: true }],
        old(s).min_frame_interval_ms > 0 ==> final(s).last_frame_at == Some(now),
        *final(s) == (RuntimeState { last_frame_at: final(s).last_frame_at, ..*old(s) }),
        old(s).min_frame_interval_ms == 0 ==> *final(s) == *old(s),
{
    assert(actions@ =~= seq![
        Action::RenderPacket,
        Action::SubmitCapture { reuse_buffer: true },
    ]);
}

/// After a frame, one more is due an interval later and from then on, and not
/// before.
pub proof fn frames_come_an_interval_apart(
    s: &mut RuntimeState,
    t: &mut RuntimeState,
    first: u128,
    second: u128,
    x: Vec<Action>,
    y: Vec<Action>,
)
    requires
        call_ensures(RuntimeState::on_packet, (s, PacketOutcome::Received, first), x),
        call_ensures(RuntimeState::on_packet, (t, PacketOutcome::Received, second), y),
        *old(t) == *final(s),
        old(s).thermal_state == 0,
        x@[0] == Action::RenderPacket,
        old(s).min_frame_interval_ms > 0,
    ensures
        y@[0] == Action::RenderPacket <==> second - first >= 1_000_000
            * old(s).min_frame_interval_ms,
{
}

/// A packet for which no frame is due, or that comes in on a hot board, is
/// dropped: it changes nothing. The next capture follows, in the same buffer,
/// unless the board is critical.
pub proof fn other_packets_are_dropped(s: &mut RuntimeState, now: u128, actions: Vec<Action>)
    requires
        call_ensures(RuntimeState::on_packet, (s, PacketOutcome::Received, now), actions),
        old(s).thermal_state != 0 || !frame_is_due(*old(s), now),
    ensures
        *final(s) == *old(s),
        actions@ == if old(s).thermal_state == 2 {
            Seq::<Action>::empty()
        } else {
            seq![Action::SubmitCapture { reuse_buffer: true }]
        },
{
    if old(s).thermal_state != 2 {
        assert(actions@ =~= seq![Action::SubmitCapture { reuse_buffer: true }]);
    }
}

/// A failed capture changes nothing, and is said only where it is more than
/// nothing to read for the moment. The next capture follows, in a new buffer,
/// unless the board is critical.
pub proof fn failed_captures_go_on(
    s: &mut RuntimeState,
    failure: ReadFailure,
    now: u128,
    actions: Vec<Action>,
)
    requires
        call_ensures(RuntimeState::on_packet, (s, PacketOutcome::Failed(failure), now), actions),
    ensures
        *final(s) == *old(s),
        old(s).thermal_state == 2 ==> actions@.len() == 0,
        old(s).thermal_state != 2 && failure == ReadFailure::Other ==> actions@ == seq![
            Action::Report(Report::ReadFailed),
            Action::SubmitCapture { reuse_buffer: false },
        ],
        old(s).thermal_state != 2 && failure != ReadFailure::Other ==> actions@ == seq![
            Action::SubmitCapture { reuse_buffer: false },
        ],
{
    if old(s).thermal_state != 2 {
        if failure == ReadFailure::Other {
            assert(actions@ =~= seq![
                Action::Report(Report::ReadFailed),
                Action::SubmitCapture { reuse_buffer: false },
            ]);
        } else {
            assert(actions@ =~= seq![Action::SubmitCapture { reuse_buffer: false }]);
        }
    }
}

/// The slot of a frame is taken exactly where a frame is due, and its time is
/// then noted where frames have an interval.
pub proof fn slot_is_taken_when_due(s: &mut RuntimeState, now: u128, claimed: bool)
    requires
        call_ensures(RuntimeState::claim_frame_slot, (s, now), claimed),
    ensures
        claimed <==> frame_is_due(*old(s), now),
        *final(s) == if claimed && old(s).min_frame_interval_ms > 0 {
            RuntimeState { last_frame_at: Some(now), ..*old(s) }
        } else {
            *old(s)
        },
{
}

/// An accepted connection becomes a subscriber where there is a publisher, and
/// is closed where there is none; a listener goes on accepting at once. A failed
/// accept is said and repeated later.
pub proof fn connections_are_admitted(
    s: &RuntimeState,
    outcome: AcceptOutcome,
    actions: Vec<Action>,
)
    requires
        call_ensures(RuntimeState::on_accept, (s, outcome), actions),
    ensures
        match outcome {
            AcceptOutcome::Connected(client) => {
                &&& actions@.len() == if s.listener {
                    2nat
                } else {
                    1
                }
                &&& actions@[0] == if s.publisher {
                    Action::AdmitClient(client)
                } else {
                    Action::CloseClient(client)
                }
                &&& s.listener ==> actions@[1] == Action::SubmitAccept
            },
            AcceptOutcome::Failed => actions@ == seq![
                Action::Report(Report::AcceptFailed),
                Action::ScheduleAcceptRetry,
            ],
        },
{
}

/// A listener accepts, and the start of a program checks and captures besides.
pub proof fn start_accepts_checks_and_captures(
    s: &RuntimeState,
    accepts: Vec<Action>,
    actions: Vec<Action>,
)
    requires
        call_ensures(RuntimeState::arm_accept, (s,), accepts),
        call_ensures(RuntimeState::start, (s,), actions),
    ensures
        accepts@ == if s.listener {
            seq![Action::SubmitAccept]
        } else {
            Seq::<Action>::empty()
        },
        actions@ == accepts@ + seq![
            Action::ScheduleThermalTick,
            Action::SubmitCapture { reuse_buffer: false },
        ],
{
}

/// A program starts cool and dark, with the thresholds and the interval of its
/// configuration, and with subscribers exactly where it has a signal socket.
pub proof fn program_starts_as_configured(config: &Config, s: RuntimeState)
    requires
        call_ensures(RuntimeState::new, (config,), s),
    ensures
        s.thermal_state == 0,
        !s.warned && !s.pulse_on && !s.pulse_armed,
        s.critical_pulses_left == 0,
        s.listener == config.signal_socket_path is Some,
        s.publisher == config.signal_socket_path is Some,
        s.warn_temp_c == config.warn_temp_c,
        s.critical_temp_c == config.critical_temp_c,
        s.min_frame_interval_ms == config.min_frame_interval_ms,
        s.last_frame_at is None,
{
}

/// The program waits 350 milliseconds between two pulses and a second before it
/// accepts again, captures whole Ethernet frames, and draws from the first pixel
/// on.
pub proof fn program_keeps_its_pace()
    ensures
        PULSE_INTERVAL_MS == 350,
        ACCEPT_RETRY_DELAY_SECS == 1,
        CAPTURE_BUFFER_BYTES == 1518,
        FRAMEBUFFER_OFFSET == 0,
{
}

} // verus!
