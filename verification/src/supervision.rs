//! What holds of every run of the program, whatever completes when, and whatever
//! is refused.

use crate::config::Config;
use crate::runtime::{
    band, AcceptOutcome, Action, PacketOutcome, Report, RuntimeState, Submission,
    CRITICAL_PULSES_BEFORE_EXIT, NANOS_PER_MS,
};
use crate::single::Single;
use crate::{THERMAL_STATE_CRITICAL, THERMAL_STATE_NORMAL, THERMAL_STATE_WARNING};
use vstd::prelude::*;

verus! {

/// How often an action stands in a list.
pub open spec fn occurrences(actions: Seq<Action>, a: Action) -> nat
    decreases actions.len(),
{
    if actions.len() == 0 {
        0
    } else {
        occurrences(actions.drop_last(), a) + if actions.last() == a {
            1nat
        } else {
            0
        }
    }
}

/// How many captures a list submits.
pub open spec fn captures_in(actions: Seq<Action>) -> nat {
    occurrences(actions, Action::SubmitCapture { reuse_buffer: true }) + occurrences(
        actions,
        Action::SubmitCapture { reuse_buffer: false },
    )
}

/// Whether carrying out a list of actions submits an operation.
pub open spec fn submits(actions: Seq<Action>, submission: Submission) -> bool {
    match submission {
        Submission::Accept => occurrences(actions, Action::SubmitAccept) > 0,
        Submission::AcceptRetry => occurrences(actions, Action::ScheduleAcceptRetry) > 0,
        Submission::Capture => captures_in(actions) > 0,
        Submission::FrameWrite => exists|i: int|
            0 <= i < actions.len() && (#[trigger] actions[i] is RenderPacket || actions[i]
                is ShowPulse || actions[i] is ShowClear),
        Submission::ThermalTick => occurrences(actions, Action::ScheduleThermalTick) > 0,
        Submission::Pulse => occurrences(actions, Action::SchedulePulse) > 0,
        Submission::StatusSend => exists|i: int|
            0 <= i < actions.len() && #[trigger] actions[i] is Publish,
    }
}

/// A completion, or the refusal of an operation that was just submitted.
pub ghost enum Event {
    Tick(Option<Single>),
    Pulse,
    Packet(PacketOutcome, u128),
    Accept(AcceptOutcome),
    AcceptRetry,
    Refused(Submission),
}

/// The state, together with what is in flight. What was submitted last can
/// still be refused.
pub ghost struct World {
    pub state: RuntimeState,
    pub ticks: nat,
    pub pulses: nat,
    pub captures: nat,
    pub accepts: nat,
    pub retries: nat,
    pub fresh: Set<Submission>,
    pub stopped: bool,
}

/// The state after an event.
pub open spec fn state_after_event(s: RuntimeState, e: Event) -> RuntimeState {
    match e {
        Event::Tick(reading) => s.after_tick(reading),
        Event::Pulse => s.after_pulse(),
        Event::Packet(outcome, now) => s.after_packet(outcome, now),
        Event::Accept(_) => s,
        Event::AcceptRetry => s,
        Event::Refused(submission) => s.after_refused(submission),
    }
}

/// The actions of an event.
pub open spec fn actions_of_event(s: RuntimeState, e: Event) -> Seq<Action> {
    match e {
        Event::Tick(reading) => s.tick_actions(reading),
        Event::Pulse => s.pulse_actions(),
        Event::Packet(outcome, now) => s.packet_actions(outcome, now),
        Event::Accept(outcome) => s.accept_actions(outcome),
        Event::AcceptRetry => s.accept_starts(),
        Event::Refused(submission) => s.refused_actions(submission),
    }
}

/// Only what is in flight completes, and nothing after the stop; only what was
/// just submitted is refused.
pub open spec fn possible(w: World, e: Event) -> bool {
    match e {
        Event::Tick(_) => !w.stopped && w.ticks > 0,
        Event::Pulse => !w.stopped && w.pulses > 0,
        Event::Packet(..) => !w.stopped && w.captures > 0,
        Event::Accept(_) => !w.stopped && w.accepts > 0,
        Event::AcceptRetry => !w.stopped && w.retries > 0,
        Event::Refused(submission) => w.fresh.contains(submission),
    }
}

/// What is in flight after `submitted` operations of a kind were added to
/// `before`, and one ended where `ended` says so.
pub open spec fn in_flight(before: nat, submitted: nat, ended: bool) -> nat {
    (before + submitted - if ended {
        1int
    } else {
        0
    }) as nat
}

/// The world after an event whose actions were all carried out.
pub open spec fn step(w: World, e: Event) -> World {
    let actions = actions_of_event(w.state, e);
    World {
        state: state_after_event(w.state, e),
        ticks: in_flight(
            w.ticks,
            occurrences(actions, Action::ScheduleThermalTick),
            e is Tick || e == Event::Refused(Submission::ThermalTick),
        ),
        pulses: in_flight(
            w.pulses,
            occurrences(actions, Action::SchedulePulse),
            e is Pulse || e == Event::Refused(Submission::Pulse),
        ),
        captures: in_flight(
            w.captures,
            captures_in(actions),
            e is Packet || e == Event::Refused(Submission::Capture),
        ),
        accepts: in_flight(
            w.accepts,
            occurrences(actions, Action::SubmitAccept),
            e is Accept || e == Event::Refused(Submission::Accept),
        ),
        retries: in_flight(
            w.retries,
            occurrences(actions, Action::ScheduleAcceptRetry),
            e is AcceptRetry || e == Event::Refused(Submission::AcceptRetry),
        ),
        fresh: match e {
            // One status goes out in several sends, each of which can be refused.
            Event::Refused(Submission::StatusSend) => w.fresh,
            Event::Refused(submission) => w.fresh.remove(submission),
            _ => Set::new(|submission: Submission| submits(actions, submission)),
        },
        stopped: w.stopped || occurrences(actions, Action::Stop) > 0,
    }
}

/// The world after a series of events.
pub open spec fn run(w: World, events: Seq<Event>) -> World
    decreases events.len(),
{
    if events.len() == 0 {
        w
    } else {
        step(run(w, events.drop_last()), events.last())
    }
}

/// Each event of the series is possible when it comes.
pub open spec fn possible_run(w: World, events: Seq<Event>) -> bool
    decreases events.len(),
{
    events.len() > 0 ==> possible_run(w, events.drop_last()) && possible(
        run(w, events.drop_last()),
        events.last(),
    )
}

/// The world in which a configured program starts.
pub open spec fn start_world(config: Config) -> World {
    let s = RuntimeState::initial(config);
    World {
        state: s,
        ticks: occurrences(s.start_actions(), Action::ScheduleThermalTick),
        pulses: occurrences(s.start_actions(), Action::SchedulePulse),
        captures: captures_in(s.start_actions()),
        accepts: occurrences(s.start_actions(), Action::SubmitAccept),
        retries: occurrences(s.start_actions(), Action::ScheduleAcceptRetry),
        fresh: Set::new(|submission: Submission| submits(s.start_actions(), submission)),
        stopped: false,
    }
}

/// Until the stop there is one capture in flight, unless critical, and never a
/// second one; one temperature check, unless critical; and one pulse, if and
/// only if the state says that the pulse runs. There is never more than one
/// accept in flight or waiting to be retried, and none without a listener. What
/// was just submitted is in flight, and once critical that is neither a capture
/// nor a check.
pub open spec fn in_order(w: World) -> bool {
    let s = w.state;
    let critical = s.thermal_state == THERMAL_STATE_CRITICAL;
    &&& s.thermal_state == THERMAL_STATE_NORMAL || s.thermal_state == THERMAL_STATE_WARNING
        || critical
    &&& !w.stopped ==> {
        &&& w.ticks == if critical {
            0nat
        } else {
            1
        }
        &&& w.pulses == if s.pulse_armed {
            1nat
        } else {
            0
        }
        &&& w.captures <= 1
        &&& !critical ==> w.captures == 1
        &&& critical ==> 1 <= s.critical_pulses_left <= CRITICAL_PULSES_BEFORE_EXIT
        &&& w.fresh.contains(Submission::Pulse) ==> s.pulse_armed
    }
    &&& w.accepts + w.retries <= if s.listener {
        1nat
    } else {
        0
    }
    &&& w.fresh.contains(Submission::Accept) ==> w.accepts == 1
    &&& w.fresh.contains(Submission::AcceptRetry) ==> w.retries == 1
    &&& critical ==> {
        &&& !w.fresh.contains(Submission::ThermalTick)
        &&& !w.fresh.contains(Submission::Capture)
    }
}

proof fn lemma_occurrences_add(x: Seq<Action>, y: Seq<Action>, a: Action)
    ensures
        occurrences(x + y, a) == occurrences(x, a) + occurrences(y, a),
    decreases y.len(),
{
    if y.len() == 0 {
        assert(x + y =~= x);
    } else {
        lemma_occurrences_add(x, y.drop_last(), a);
        assert((x + y).drop_last() =~= x + y.drop_last());
    }
}

proof fn lemma_occurrences_push(x: Seq<Action>, b: Action, a: Action)
    ensures
        occurrences(x.push(b), a) == occurrences(x, a) + if a == b {
            1nat
        } else {
            0
        },
{
    assert(x.push(b).drop_last() =~= x);
}

proof fn lemma_occurrences_short(a: Action)
    ensures
        forall|x: Seq<Action>|
            x.len() <= 2 ==> #[trigger] occurrences(x, a) == (if x.len() > 0 && x[0] == a {
                1nat
            } else {
                0
            }) + (if x.len() > 1 && x[1] == a {
                1nat
            } else {
                0
            }),
{
    reveal_with_fuel(occurrences, 3);
}

/// How often an action follows a temperature check.
proof fn lemma_tick_occurrences(s: RuntimeState, reading: Option<Single>, a: Action)
    requires
        !(a is Report),
    ensures
        occurrences(s.tick_actions(reading), a) == occurrences(
            s.after_tick(reading).publications(reading),
            a,
        ) + (if reading is Some && s.state_after(reading) != THERMAL_STATE_NORMAL {
            occurrences(s.pulse_starts(), a)
        } else {
            0
        }) + (if a == Action::ScheduleThermalTick && !(reading is Some && s.state_after(reading)
            == THERMAL_STATE_CRITICAL) {
            1nat
        } else {
            0
        }),
{
    lemma_occurrences_short(a);
    let said = s.tick_reports(reading);
    let published = s.after_tick(reading).publications(reading);
    let pulse = s.pulse_starts();
    let tick = seq![Action::ScheduleThermalTick];
    assert(occurrences(said, a) == 0);
    lemma_occurrences_add(said, published, a);
    lemma_occurrences_add(said + published, pulse, a);
    lemma_occurrences_add(said, pulse, a);
    lemma_occurrences_add(said + pulse, published, a);
    lemma_occurrences_add(said + pulse + published, tick, a);
    lemma_occurrences_add(said + published, tick, a);
}

/// How often an action follows a capture.
proof fn lemma_packet_occurrences(s: RuntimeState, outcome: PacketOutcome, now: u128, a: Action)
    requires
        !(a is Report),
        a != Action::RenderPacket,
    ensures
        occurrences(s.packet_actions(outcome, now), a) == if s.thermal_state
            != THERMAL_STATE_CRITICAL && a == (Action::SubmitCapture {
            reuse_buffer: outcome == PacketOutcome::Received,
        }) {
            1nat
        } else {
            0
        },
{
    lemma_occurrences_short(a);
    if s.thermal_state != THERMAL_STATE_CRITICAL {
        let actions = s.packet_actions(outcome, now);
        lemma_occurrences_push(actions.drop_last(), actions.last(), a);
        assert(actions =~= actions.drop_last().push(actions.last()));
        assert(actions.drop_last() =~= seq![] || actions.drop_last() =~= seq![actions[0]]);
    }
}

/// The actions that keep the program going, or end it.
spec fn is_submission(a: Action) -> bool {
    ||| a == Action::ScheduleThermalTick
    ||| a == Action::SchedulePulse
    ||| a == Action::Stop
    ||| a == Action::SubmitAccept
    ||| a == Action::ScheduleAcceptRetry
    ||| a == (Action::SubmitCapture { reuse_buffer: true })
    ||| a == (Action::SubmitCapture { reuse_buffer: false })
}

/// Which action that keeps the program going, or ends it, follows an event.
spec fn follows(s: RuntimeState, e: Event, a: Action) -> bool {
    match e {
        Event::Tick(reading) => {
            ||| a == Action::SchedulePulse && !s.pulse_armed && s.after_tick(reading).pulse_armed
            ||| a == Action::ScheduleThermalTick && !(reading is Some && s.state_after(reading)
                == THERMAL_STATE_CRITICAL)
        },
        Event::Pulse => s.thermal_state != THERMAL_STATE_NORMAL && a == s.pulse_actions()[1],
        Event::Packet(outcome, now) => s.thermal_state != THERMAL_STATE_CRITICAL && a == (
        Action::SubmitCapture { reuse_buffer: outcome == PacketOutcome::Received }),
        Event::Accept(AcceptOutcome::Failed) => a == Action::ScheduleAcceptRetry,
        Event::Refused(submission) => a == Action::Stop && (submission == Submission::Capture
            || submission == Submission::ThermalTick),
        _ => s.listener && a == Action::SubmitAccept,
    }
}

proof fn lemma_event_occurrences(s: RuntimeState, e: Event)
    ensures
        forall|a: Action|
            is_submission(a) ==> #[trigger] occurrences(actions_of_event(s, e), a) == if follows(
                s,
                e,
                a,
            ) {
                1nat
            } else {
                0
            },
{
    assert forall|a: Action| is_submission(a) implies #[trigger] occurrences(
        actions_of_event(s, e),
        a,
    ) == if follows(s, e, a) {
        1nat
    } else {
        0
    } by {
        lemma_occurrences_short(a);
        match e {
            Event::Tick(reading) => {
                lemma_tick_occurrences(s, reading, a);
            },
            Event::Packet(outcome, now) => {
                lemma_packet_occurrences(s, outcome, now, a);
            },
            _ => {},
        }
    }
}

/// A program starts in order: cool, not stopped, and, where it has a signal
/// socket, with an accept in flight.
pub proof fn start_is_in_order(config: Config)
    ensures
        in_order(start_world(config)),
        !start_world(config).stopped,
        start_world(config).state.thermal_state == THERMAL_STATE_NORMAL,
        start_world(config).accepts + start_world(config).retries == if config.signal_socket_path
            is Some {
            1nat
        } else {
            0
        },
{
    let s = RuntimeState::initial(config);
    let tail = seq![
        Action::ScheduleThermalTick,
        Action::SubmitCapture { reuse_buffer: false },
    ];
    assert forall|a: Action| occurrences(s.start_actions(), a) == occurrences(s.accept_starts(), a)
        + occurrences(tail, a) by {
        lemma_occurrences_add(s.accept_starts(), tail, a);
    }
    lemma_occurrences_short(Action::ScheduleThermalTick);
    lemma_occurrences_short(Action::SchedulePulse);
    lemma_occurrences_short(Action::SubmitCapture { reuse_buffer: true });
    lemma_occurrences_short(Action::SubmitCapture { reuse_buffer: false });
    lemma_occurrences_short(Action::SubmitAccept);
    lemma_occurrences_short(Action::ScheduleAcceptRetry);
}

/// An event keeps the world in order.
pub proof fn step_keeps_order(w: World, e: Event)
    requires
        in_order(w),
        possible(w, e),
    ensures
        in_order(step(w, e)),
{
    lemma_event_occurrences(w.state, e);
}

/// Every run stays in order.
pub proof fn run_keeps_order(w: World, events: Seq<Event>)
    requires
        in_order(w),
        possible_run(w, events),
    ensures
        in_order(run(w, events)),
    decreases events.len(),
{
    if events.len() > 0 {
        run_keeps_order(w, events.drop_last());
        step_keeps_order(run(w, events.drop_last()), events.last());
    }
}

/// The state after a series of events.
pub open spec fn state_after_events(s: RuntimeState, events: Seq<Event>) -> RuntimeState
    decreases events.len(),
{
    if events.len() == 0 {
        s
    } else {
        state_after_event(state_after_events(s, events.drop_last()), events.last())
    }
}

/// How many pulses are among the events.
pub open spec fn pulses_among(events: Seq<Event>) -> nat
    decreases events.len(),
{
    if events.len() == 0 {
        0
    } else {
        pulses_among(events.drop_last()) + if events.last() is Pulse {
            1nat
        } else {
            0
        }
    }
}

/// How many lit pulses of a critical board a run shows.
pub open spec fn red_shown(w: World, events: Seq<Event>) -> nat
    decreases events.len(),
{
    if events.len() == 0 {
        0
    } else {
        red_shown(w, events.drop_last()) + occurrences(
            actions_of_event(run(w, events.drop_last()).state, events.last()),
            Action::ShowPulse(THERMAL_STATE_CRITICAL),
        )
    }
}

proof fn lemma_red_occurrences(s: RuntimeState, e: Event)
    ensures
        occurrences(actions_of_event(s, e), Action::ShowPulse(THERMAL_STATE_CRITICAL)) == if e
            is Pulse && s.thermal_state == THERMAL_STATE_CRITICAL && !s.pulse_on {
            1nat
        } else {
            0
        },
{
    let a = Action::ShowPulse(THERMAL_STATE_CRITICAL);
    lemma_occurrences_short(a);
    match e {
        Event::Tick(reading) => {
            lemma_tick_occurrences(s, reading, a);
        },
        Event::Packet(outcome, now) => {
            lemma_packet_occurrences(s, outcome, now, a);
        },
        _ => {},
    }
}

/// Once critical, the program stays critical until it stops. It stops with the
/// last lit pulse that was left to show: not before, and no pulse comes after.
/// Between two lit pulses there is one dark one.
pub proof fn critical_pulses_until_stop(w: World, events: Seq<Event>)
    requires
        in_order(w),
        !w.stopped,
        w.state.thermal_state == THERMAL_STATE_CRITICAL,
        possible_run(w, events),
    ensures
        run(w, events).state.thermal_state == THERMAL_STATE_CRITICAL,
        red_shown(w, events) <= w.state.critical_pulses_left,
        run(w, events).stopped <==> red_shown(w, events) == w.state.critical_pulses_left,
        !run(w, events).stopped ==> run(w, events).state.critical_pulses_left
            == w.state.critical_pulses_left - red_shown(w, events),
        pulses_among(events) + (if run(w, events).state.pulse_on {
            1int
        } else {
            0
        }) == 2 * red_shown(w, events) + (if w.state.pulse_on {
            1int
        } else {
            0
        }),
        run(w, events).stopped ==> run(w, events).state.pulse_on,
    decreases events.len(),
{
    if events.len() > 0 {
        let prior = run(w, events.drop_last());
        critical_pulses_until_stop(w, events.drop_last());
        run_keeps_order(w, events.drop_last());
        step_keeps_order(prior, events.last());
        lemma_event_occurrences(prior.state, events.last());
        lemma_red_occurrences(prior.state, events.last());
    }
}

/// Only a critical board stops the program, or the refusal of a capture or of a
/// temperature check.
pub proof fn only_heat_or_refusal_stops(w: World, events: Seq<Event>)
    requires
        in_order(w),
        !w.stopped,
        possible_run(w, events),
        run(w, events).stopped,
    ensures
        run(w, events).state.thermal_state == THERMAL_STATE_CRITICAL || events.contains(
            Event::Refused(Submission::Capture),
        ) || events.contains(Event::Refused(Submission::ThermalTick)),
    decreases events.len(),
{
    if events.len() > 0 {
        let prior = run(w, events.drop_last());
        let last = events.last();
        lemma_event_occurrences(prior.state, last);
        assert(events[events.len() - 1] == last);
        if prior.stopped {
            only_heat_or_refusal_stops(w, events.drop_last());
            assert(forall|e: Event| #[trigger]
                events.drop_last().contains(e) ==> events.contains(e));
        }
    }
}

/// A hot board pulses until it is cool or the program stops, unless the pulse
/// timer was refused.
pub proof fn hot_board_pulses(w: World, events: Seq<Event>)
    requires
        in_order(w),
        w.state.thermal_state != THERMAL_STATE_NORMAL ==> w.state.pulse_armed,
        possible_run(w, events),
        !events.contains(Event::Refused(Submission::Pulse)),
        run(w, events).state.thermal_state != THERMAL_STATE_NORMAL,
        !run(w, events).stopped,
    ensures
        run(w, events).pulses == 1,
{
    lemma_hot_is_armed(w, events);
    run_keeps_order(w, events);
}

proof fn lemma_hot_is_armed(w: World, events: Seq<Event>)
    requires
        w.state.thermal_state != THERMAL_STATE_NORMAL ==> w.state.pulse_armed,
        !events.contains(Event::Refused(Submission::Pulse)),
    ensures
        run(w, events).state.thermal_state != THERMAL_STATE_NORMAL ==> run(
            w,
            events,
        ).state.pulse_armed,
    decreases events.len(),
{
    if events.len() > 0 {
        assert(events[events.len() - 1] == events.last());
        assert(forall|e: Event| #[trigger] events.drop_last().contains(e) ==> events.contains(e));
        lemma_hot_is_armed(w, events.drop_last());
    }
}

/// A pulse that could not be scheduled is started again by the next check that
/// still finds the board hot.
pub proof fn refused_pulse_starts_again(s: RuntimeState, reading: Option<Single>)
    requires
        reading is Some,
        s.state_after(reading) != THERMAL_STATE_NORMAL,
    ensures
        occurrences(
            s.after_refused(Submission::Pulse).tick_actions(reading),
            Action::SchedulePulse,
        ) == 1,
        s.after_refused(Submission::Pulse).after_tick(reading).pulse_armed,
{
    lemma_occurrences_short(Action::SchedulePulse);
    lemma_tick_occurrences(
        s.after_refused(Submission::Pulse),
        reading,
        Action::SchedulePulse,
    );
}

/// With a listener, one accept is always in flight or waiting to be retried,
/// unless one was refused.
pub proof fn accepts_go_on(w: World, events: Seq<Event>)
    requires
        in_order(w),
        w.state.listener,
        w.accepts + w.retries == 1,
        possible_run(w, events),
        !events.contains(Event::Refused(Submission::Accept)),
        !events.contains(Event::Refused(Submission::AcceptRetry)),
    ensures
        run(w, events).state.listener,
        run(w, events).accepts + run(w, events).retries == 1,
    decreases events.len(),
{
    if events.len() > 0 {
        assert(events[events.len() - 1] == events.last());
        assert(forall|e: Event| #[trigger] events.drop_last().contains(e) ==> events.contains(e));
        accepts_go_on(w, events.drop_last());
        lemma_event_occurrences(run(w, events.drop_last()).state, events.last());
    }
}

/// A critical reading leaves six lit pulses to show, schedules no further check and
/// has the pulse running.
pub proof fn critical_reading_starts_shutdown(s: RuntimeState, reading: Option<Single>)
    requires
        reading is Some,
        s.state_after(reading) == THERMAL_STATE_CRITICAL,
    ensures
        s.after_tick(reading).thermal_state == THERMAL_STATE_CRITICAL,
        s.after_tick(reading).critical_pulses_left == CRITICAL_PULSES_BEFORE_EXIT,
        s.after_tick(reading).pulse_armed,
        occurrences(s.tick_actions(reading), Action::ScheduleThermalTick) == 0,
        occurrences(s.tick_actions(reading), Action::SchedulePulse) == if s.pulse_armed {
            0nat
        } else {
            1
        },
{
    lemma_occurrences_short(Action::ScheduleThermalTick);
    lemma_occurrences_short(Action::SchedulePulse);
    lemma_tick_occurrences(s, reading, Action::ScheduleThermalTick);
    lemma_tick_occurrences(s, reading, Action::SchedulePulse);
}

/// A critical reading stops the program with the sixth lit pulse after it: not
/// before, and no pulse comes after. So the grace is bounded: at most twelve
/// pulses, dark ones counted.
pub proof fn critical_reading_stops_after_six_pulses(
    w: World,
    reading: Option<Single>,
    events: Seq<Event>,
)
    requires
        in_order(w),
        possible(w, Event::Tick(reading)),
        reading is Some,
        w.state.state_after(reading) == THERMAL_STATE_CRITICAL,
        possible_run(step(w, Event::Tick(reading)), events),
    ensures
        ({
            let end = run(step(w, Event::Tick(reading)), events);
            let red = red_shown(step(w, Event::Tick(reading)), events);
            &&& end.state.thermal_state == THERMAL_STATE_CRITICAL
            &&& red <= CRITICAL_PULSES_BEFORE_EXIT
            &&& end.stopped <==> red == CRITICAL_PULSES_BEFORE_EXIT
            &&& pulses_among(events) <= 2 * CRITICAL_PULSES_BEFORE_EXIT
        }),
{
    lemma_event_occurrences(w.state, Event::Tick(reading));
    step_keeps_order(w, Event::Tick(reading));
    critical_pulses_until_stop(step(w, Event::Tick(reading)), events);
}

/// While the board is hot no packet becomes a frame: with a warning the capture
/// goes on without one, and once critical it ends.
pub proof fn hot_board_renders_nothing(s: RuntimeState, outcome: PacketOutcome, now: u128)
    requires
        s.thermal_state != THERMAL_STATE_NORMAL,
    ensures
        !s.packet_actions(outcome, now).contains(Action::RenderPacket),
        s.after_packet(outcome, now) == s,
        s.thermal_state == THERMAL_STATE_CRITICAL ==> s.packet_actions(outcome, now).len() == 0,
        s.thermal_state != THERMAL_STATE_CRITICAL ==> s.packet_actions(outcome, now).last() == (
        Action::SubmitCapture { reuse_buffer: outcome == PacketOutcome::Received }),
{
}

/// Every check publishes once where there is a publisher, with the state that
/// the check led to; without a publisher none does.
pub proof fn every_check_publishes_once(s: RuntimeState, reading: Option<Single>, a: Action)
    requires
        a is Publish,
    ensures
        occurrences(s.tick_actions(reading), a) == if s.publisher && a == (Action::Publish {
            state: s.state_after(reading),
            reading,
        }) {
            1nat
        } else {
            0
        },
{
    lemma_occurrences_short(a);
    lemma_tick_occurrences(s, reading, a);
}

/// A check always comes back with the next one, unless it was critical.
pub proof fn every_check_but_a_critical_one_repeats(s: RuntimeState, reading: Option<Single>)
    ensures
        occurrences(s.tick_actions(reading), Action::ScheduleThermalTick) == if reading is Some
            && s.state_after(reading) == THERMAL_STATE_CRITICAL {
            0nat
        } else {
            1
        },
{
    lemma_occurrences_short(Action::ScheduleThermalTick);
    lemma_tick_occurrences(s, reading, Action::ScheduleThermalTick);
}

/// A hotter reading never leads to a milder state.
pub proof fn hotter_is_not_milder(a: Single, b: Single, warn: Single, critical: Single)
    requires
        a.at_least(b),
    ensures
        band(a, warn, critical) >= band(b, warn, critical),
{
}

/// With the critical temperature above the warning temperature, the three bands
/// lie one above the other: a temperature in between gives the warning.
pub proof fn bands_partition_the_scale(reading: Single, warn: Single, critical: Single)
    requires
        critical.above(warn),
        !reading.nan(),
    ensures
        band(reading, warn, critical) == THERMAL_STATE_NORMAL <==> reading.units() < warn.units(),
        band(reading, warn, critical) == THERMAL_STATE_WARNING <==> warn.units() <= reading.units()
            < critical.units(),
        band(reading, warn, critical) == THERMAL_STATE_CRITICAL <==> critical.units()
            <= reading.units(),
{
}

/// A warning is reported when it is new: after one warning, neither another one
/// nor a failed reading is reported as a warning again, and the recovery is
/// reported once.
pub proof fn warnings_are_reported_once(s: RuntimeState, first: Single, second: Single)
    requires
        s.state_after(Some(first)) == THERMAL_STATE_WARNING,
    ensures
        s.state_after(Some(second)) == THERMAL_STATE_WARNING ==> s.after_tick(
            Some(first),
        ).tick_reports(Some(second)) == Seq::<Action>::empty(),
        s.after_tick(Some(first)).after_tick(None).warned,
        s.state_after(Some(second)) == THERMAL_STATE_NORMAL ==> {
            let recovered = s.after_tick(Some(first)).after_tick(Some(second));
            &&& s.after_tick(Some(first)).tick_reports(Some(second)) == seq![
                Action::Report(Report::Recovered(second)),
            ]
            &&& recovered.tick_reports(Some(second)) == Seq::<Action>::empty()
        },
{
}

/// The pulse lights up and goes dark in turn, and after a recovery it ends dark.
pub proof fn pulses_alternate(s: RuntimeState)
    ensures
        s.thermal_state != THERMAL_STATE_NORMAL ==> {
            &&& s.pulse_actions()[0] == Action::ShowClear <==> s.after_pulse().pulse_actions()[0]
                == Action::ShowPulse(s.thermal_state)
            &&& s.after_pulse().after_pulse().pulse_on == s.pulse_on
        },
        s.thermal_state == THERMAL_STATE_NORMAL ==> {
            &&& s.pulse_actions() == seq![Action::ShowClear]
            &&& !s.after_pulse().pulse_on
            &&& !s.after_pulse().pulse_armed
        },
{
}

/// A failed accept is not repeated at once.
pub proof fn failed_accept_waits(s: RuntimeState)
    ensures
        !s.accept_actions(AcceptOutcome::Failed).contains(Action::SubmitAccept),
        s.accept_actions(AcceptOutcome::Failed).contains(
            Action::ScheduleAcceptRetry,
        ),
{
    assert(s.accept_actions(AcceptOutcome::Failed)[1]
        == Action::ScheduleAcceptRetry);
}

/// When the packets of a series that became frames arrived.
pub open spec fn rendered_at(s: RuntimeState, events: Seq<Event>) -> Seq<u128>
    decreases events.len(),
{
    if events.len() == 0 {
        seq![]
    } else {
        let before = rendered_at(s, events.drop_last());
        match events.last() {
            Event::Packet(outcome, now) => if state_after_events(s, events.drop_last()).renders(
                outcome,
                now,
            ) {
                before.push(now)
            } else {
                before
            },
            _ => before,
        }
    }
}

/// With a positive frame interval, any two frames are at least that far apart,
/// whatever happens in between.
pub proof fn frames_keep_their_distance(s: RuntimeState, events: Seq<Event>)
    requires
        s.min_frame_interval_ms > 0,
    ensures
        ({
            let times = rendered_at(s, events);
            forall|i: int, j: int|
                0 <= i < j < times.len() ==> #[trigger] times[j] - #[trigger] times[i]
                    >= s.min_frame_interval_ms * NANOS_PER_MS
        }),
{
    lemma_last_frame(s, events);
}

proof fn lemma_last_frame(s: RuntimeState, events: Seq<Event>)
    requires
        s.min_frame_interval_ms > 0,
    ensures
        ({
            let times = rendered_at(s, events);
            let now = state_after_events(s, events);
            &&& now.min_frame_interval_ms == s.min_frame_interval_ms
            &&& times.len() > 0 ==> now.last_frame_at == Some(times.last())
            &&& forall|i: int, j: int|
                0 <= i < j < times.len() ==> #[trigger] times[j] - #[trigger] times[i]
                    >= s.min_frame_interval_ms * NANOS_PER_MS
        }),
    decreases events.len(),
{
    if events.len() > 0 {
        lemma_last_frame(s, events.drop_last());
        let before = rendered_at(s, events.drop_last());
        let times = rendered_at(s, events);
        let gap = s.min_frame_interval_ms * NANOS_PER_MS;
        assert(gap >= 0);
        assert forall|i: int, j: int| 0 <= i < j < times.len() implies #[trigger] times[j]
            - #[trigger] times[i] >= gap by {
            if j < before.len() {
                assert(times[j] == before[j] && times[i] == before[i]);
            } else {
                assert(times[i] == before[i]);
                let last = before.len() - 1;
                assert(before[last] - before[i] >= 0) by {
                    if i < last {
                        assert(before[last] - before[i] >= gap);
                    }
                }
            }
        }
    }
}

/// With a zero frame interval every packet of a cool board becomes a frame.
pub proof fn zero_interval_lets_all_through(s: RuntimeState, now: u128)
    requires
        s.min_frame_interval_ms == 0,
        s.thermal_state == THERMAL_STATE_NORMAL,
    ensures
        s.renders(PacketOutcome::Received, now),
        s.packet_actions(PacketOutcome::Received, now) == seq![
            Action::RenderPacket,
            Action::SubmitCapture { reuse_buffer: true },
        ],
{
    assert(s.packet_actions(PacketOutcome::Received, now) =~= seq![
        Action::RenderPacket,
        Action::SubmitCapture { reuse_buffer: true },
    ]);
}

} // verus!
