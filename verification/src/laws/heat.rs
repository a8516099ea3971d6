//! Temperature checks and the pulse.

use crate::runtime::{Action, Report, RuntimeState, Submission};
use crate::single::Single;
use vstd::prelude::*;

verus! {

/// Nothing but the thermal state, the note of a warning and the state of the
/// pulse differs between `a` and `b`.
pub open spec fn same_settings(a: RuntimeState, b: RuntimeState) -> bool {
    &&& a.listener == b.listener
    &&& a.publisher == b.publisher
    &&& a.warn_temp_c == b.warn_temp_c
    &&& a.critical_temp_c == b.critical_temp_c
    &&& a.min_frame_interval_ms == b.min_frame_interval_ms
    &&& a.last_frame_at == b.last_frame_at
}

/// A check puts the board in the band in which its reading lies between the
/// state's own thresholds.
pub proof fn check_goes_by_its_thresholds(
    s: &mut RuntimeState,
    reading: Single,
    actions: Vec<Action>,
)
    requires
        call_ensures(RuntimeState::on_thermal_tick, (s, Some(reading)), actions),
        !reading.nan(),
        !old(s).warn_temp_c.nan(),
        !old(s).critical_temp_c.nan(),
        old(s).critical_temp_c.units() > old(s).warn_temp_c.units(),
    ensures
        final(s).thermal_state == 2 <==> reading.units() >= old(s).critical_temp_c.units(),
        final(s).thermal_state == 1 <==> old(s).warn_temp_c.units() <= reading.units()
            < old(s).critical_temp_c.units(),
        final(s).thermal_state == 0 <==> reading.units() < old(s).warn_temp_c.units(),
{
}

/// Whatever the thresholds, a check is critical where its reading is at least
/// the critical one, a warning where it is not but is at least the warning one,
/// and else normal.
pub proof fn check_compares_with_its_thresholds(
    s: &mut RuntimeState,
    reading: Single,
    actions: Vec<Action>,
)
    requires
        call_ensures(RuntimeState::on_thermal_tick, (s, Some(reading)), actions),
    ensures
        final(s).thermal_state == 2 <==> reading.at_least(old(s).critical_temp_c),
        final(s).thermal_state == 1 <==> reading.at_least(old(s).warn_temp_c)
            && !reading.at_least(old(s).critical_temp_c),
        final(s).thermal_state == 0 <==> !reading.at_least(old(s).warn_temp_c)
            && !reading.at_least(old(s).critical_temp_c),
{
}

/// A hotter reading never leads to a milder state, whatever the thresholds.
pub proof fn hotter_check_is_not_milder(
    s: &mut RuntimeState,
    t: &mut RuntimeState,
    cooler: Single,
    hotter: Single,
    x: Vec<Action>,
    y: Vec<Action>,
)
    requires
        call_ensures(RuntimeState::on_thermal_tick, (s, Some(cooler)), x),
        call_ensures(RuntimeState::on_thermal_tick, (t, Some(hotter)), y),
        old(s).warn_temp_c == old(t).warn_temp_c,
        old(s).critical_temp_c == old(t).critical_temp_c,
        hotter.at_least(cooler),
    ensures
        final(t).thermal_state >= final(s).thermal_state,
        final(s).thermal_state <= 2,
{
}

/// A reading that is no number counts as cool, as it is at least nothing.
pub proof fn no_number_is_cool(s: &mut RuntimeState, reading: Single, actions: Vec<Action>)
    requires
        call_ensures(RuntimeState::on_thermal_tick, (s, Some(reading)), actions),
        reading.nan(),
    ensures
        final(s).thermal_state == 0,
{
}

/// A check notes a warning until the board is cool again, starts the pulse on a
/// hot board, leaves six lit pulses on a critical one, and changes nothing else.
pub proof fn check_changes_nothing_else(
    s: &mut RuntimeState,
    reading: Single,
    actions: Vec<Action>,
)
    requires
        call_ensures(RuntimeState::on_thermal_tick, (s, Some(reading)), actions),
    ensures
        same_settings(*final(s), *old(s)),
        final(s).pulse_on == old(s).pulse_on,
        final(s).pulse_armed == (old(s).pulse_armed || final(s).thermal_state != 0),
        final(s).thermal_state == 0 ==> !final(s).warned,
        final(s).thermal_state == 1 ==> final(s).warned,
        final(s).thermal_state == 2 ==> final(s).warned == old(s).warned,
        final(s).critical_pulses_left == if final(s).thermal_state == 2 {
            6
        } else {
            old(s).critical_pulses_left
        },
{
}

/// What a check says: every critical reading; a warning unless one was noted;
/// and a recovery where a warning was noted. It publishes the new state and the
/// reading where there is a publisher, and starts the pulse of a hot board where
/// it is not running. The next check follows unless this one was critical.
pub proof fn check_says_publishes_and_goes_on(
    s: &mut RuntimeState,
    reading: Single,
    actions: Vec<Action>,
)
    requires
        call_ensures(RuntimeState::on_thermal_tick, (s, Some(reading)), actions),
    ensures
        ({
            let state = final(s).thermal_state;
            let published = if old(s).publisher {
                seq![Action::Publish { state, reading: Some(reading) }]
            } else {
                seq![]
            };
            let pulse = if old(s).pulse_armed {
                seq![]
            } else {
                seq![Action::SchedulePulse]
            };
            &&& state == 2 ==> actions@ == seq![Action::Report(Report::Critical(reading))]
                + published + pulse
            &&& state == 1 && !old(s).warned ==> actions@ == seq![
                Action::Report(Report::Warning(reading)),
            ] + pulse + published + seq![Action::ScheduleThermalTick]
            &&& state == 1 && old(s).warned ==> actions@ == pulse + published + seq![
                Action::ScheduleThermalTick,
            ]
            &&& state == 0 && old(s).warned ==> actions@ == seq![
                Action::Report(Report::Recovered(reading)),
            ] + published + seq![Action::ScheduleThermalTick]
            &&& state == 0 && !old(s).warned ==> actions@ == published + seq![
                Action::ScheduleThermalTick,
            ]
        }),
{
    assert(Seq::<Action>::empty() + Seq::<Action>::empty() =~= Seq::<Action>::empty());
    assert(seq![Action::SchedulePulse] =~= Seq::<Action>::empty() + seq![Action::SchedulePulse]);
    let published = if old(s).publisher {
        seq![Action::Publish { state: final(s).thermal_state, reading: Some(reading) }]
    } else {
        seq![]
    };
    assert(published =~= Seq::<Action>::empty() + published);
}

/// A check without a reading changes nothing. It says so, publishes the state
/// that stands, and the next check follows.
pub proof fn check_without_reading_changes_nothing(s: &mut RuntimeState, actions: Vec<Action>)
    requires
        call_ensures(RuntimeState::on_thermal_tick, (s, None), actions),
    ensures
        *final(s) == *old(s),
        actions@ == if old(s).publisher {
            seq![
                Action::Report(Report::NoReading),
                Action::Publish { state: old(s).thermal_state, reading: None },
                Action::ScheduleThermalTick,
            ]
        } else {
            seq![Action::Report(Report::NoReading), Action::ScheduleThermalTick]
        },
{
    if old(s).publisher {
        assert(actions@ =~= seq![
            Action::Report(Report::NoReading),
            Action::Publish { state: old(s).thermal_state, reading: None },
            Action::ScheduleThermalTick,
        ]);
    } else {
        assert(actions@ =~= seq![
            Action::Report(Report::NoReading),
            Action::ScheduleThermalTick,
        ]);
    }
}

/// The pulse of a hot board lights up in its colour where it was dark, and goes
/// dark where it was lit. It goes on, unless it was the last lit one that a
/// critical board had left: that one stops the program. Only the lit pulses of a
/// critical board are counted.
pub proof fn hot_pulse_turns(s: &mut RuntimeState, actions: Vec<Action>)
    requires
        call_ensures(RuntimeState::on_pulse, (s,), actions),
        old(s).thermal_state != 0,
    ensures
        actions@.len() == 2,
        actions@[0] == if old(s).pulse_on {
            Action::ShowClear
        } else {
            Action::ShowPulse(old(s).thermal_state)
        },
        actions@[1] == if old(s).thermal_state == 2 && !old(s).pulse_on
            && old(s).critical_pulses_left <= 1 {
            Action::Stop
        } else {
            Action::SchedulePulse
        },
        final(s).pulse_on == !old(s).pulse_on,
        final(s).critical_pulses_left == if old(s).thermal_state == 2 && !old(s).pulse_on
            && old(s).critical_pulses_left > 1 {
            old(s).critical_pulses_left - 1
        } else {
            old(s).critical_pulses_left as int
        },
        final(s).thermal_state == old(s).thermal_state,
        final(s).warned == old(s).warned,
        final(s).pulse_armed == old(s).pulse_armed,
        same_settings(*final(s), *old(s)),
{
}

/// Once the board is cool, the matrix goes dark and the pulse ends.
pub proof fn cool_pulse_ends(s: &mut RuntimeState, actions: Vec<Action>)
    requires
        call_ensures(RuntimeState::on_pulse, (s,), actions),
        old(s).thermal_state == 0,
    ensures
        actions@ == seq![Action::ShowClear],
        !final(s).pulse_on && !final(s).pulse_armed,
        final(s).thermal_state == 0,
        final(s).warned == old(s).warned,
        final(s).critical_pulses_left == old(s).critical_pulses_left,
        same_settings(*final(s), *old(s)),
{
}

/// Starting the pulse schedules it where it is not running, and only there.
pub proof fn pulse_is_started_once(s: &mut RuntimeState, actions: Vec<Action>)
    requires
        call_ensures(RuntimeState::arm_pulse, (s,), actions),
    ensures
        actions@ == if old(s).pulse_armed {
            Seq::<Action>::empty()
        } else {
            seq![Action::SchedulePulse]
        },
        final(s).pulse_armed,
        final(s).pulse_on == old(s).pulse_on,
        final(s).thermal_state == old(s).thermal_state,
        final(s).warned == old(s).warned,
        final(s).critical_pulses_left == old(s).critical_pulses_left,
        same_settings(*final(s), *old(s)),
{
}

/// The status goes out with the state that stands, where there is a publisher.
pub proof fn status_is_the_present_one(
    s: &RuntimeState,
    reading: Option<Single>,
    actions: Vec<Action>,
)
    requires
        call_ensures(RuntimeState::publish, (s, reading), actions),
    ensures
        actions@ == if s.publisher {
            seq![Action::Publish { state: s.thermal_state, reading }]
        } else {
            Seq::<Action>::empty()
        },
{
}

/// A refused operation is reported. Without captures or checks the program
/// stops; without its timer the pulse is off; nothing else changes.
pub proof fn refusal_is_reported(
    s: &mut RuntimeState,
    submission: Submission,
    actions: Vec<Action>,
)
    requires
        call_ensures(RuntimeState::on_refused, (s, submission), actions),
    ensures
        actions@.len() > 0,
        actions@[0] == Action::Report(Report::Refused(submission)),
        submission == Submission::Capture || submission == Submission::ThermalTick ==> actions@
            =~= seq![Action::Report(Report::Refused(submission)), Action::Stop],
        submission != Submission::Capture && submission != Submission::ThermalTick
            ==> actions@.len() == 1,
        final(s).pulse_armed == (old(s).pulse_armed && submission != Submission::Pulse),
        final(s).pulse_on == old(s).pulse_on,
        final(s).thermal_state == old(s).thermal_state,
        final(s).warned == old(s).warned,
        final(s).critical_pulses_left == old(s).critical_pulses_left,
        same_settings(*final(s), *old(s)),
{
}

} // verus!
