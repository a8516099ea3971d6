//! Thermal states and the status messages that subscribers read.

use crate::decimal::{decimal, decimal_text, format_tenths, tenths_text};
use crate::single::Single;
use crate::{THERMAL_STATE_CRITICAL, THERMAL_STATE_WARNING};
use vstd::prelude::*;
use vstd::string::*;

verus! {

/// What a thermal state is called.
pub open spec fn state_name(state: u8) -> Seq<char> {
    if state == THERMAL_STATE_WARNING {
        "warning"@
    } else if state == THERMAL_STATE_CRITICAL {
        "critical"@
    } else {
        "normal"@
    }
}

/// What subscribers are advised to do in a thermal state.
pub open spec fn recommendation(state: u8) -> Seq<char> {
    if state == THERMAL_STATE_WARNING {
        "throttle"@
    } else if state == THERMAL_STATE_CRITICAL {
        "pause"@
    } else {
        "normal"@
    }
}

/// The name of a thermal state; unknown states count as normal.
pub fn thermal_state_name(state: u8) -> (r: &'static str)
    ensures
        r@ == state_name(state),
{
    if state == THERMAL_STATE_WARNING {
        "warning"
    } else if state == THERMAL_STATE_CRITICAL {
        "critical"
    } else {
        "normal"
    }
}

/// The advice for a thermal state; unknown states count as normal.
pub fn thermal_recommendation(state: u8) -> (r: &'static str)
    ensures
        r@ == recommendation(state),
{
    if state == THERMAL_STATE_WARNING {
        "throttle"
    } else if state == THERMAL_STATE_CRITICAL {
        "pause"
    } else {
        "normal"
    }
}

/// Calls `SystemTime::elapsed` on the Unix epoch: the time from the epoch to the
/// present by the system clock, in whole seconds; none where the clock stands
/// before the epoch. Nothing is claimed of the reading: it depends on the
/// machine's clock alone.
#[verifier::external_body]
fn clock_reading() -> (r: Option<u64>) {
    std::time::UNIX_EPOCH.elapsed().ok().map(|elapsed| elapsed.as_secs())
}

/// `reading` is what a call of the clock gave.
pub closed spec fn clock_gave(reading: Option<u64>) -> bool {
    call_ensures(clock_reading, (), reading)
}

/// What the clock gave came from a call of the clock, and from nowhere else.
proof fn clock_was_asked(reading: Option<u64>)
    ensures
        clock_gave(reading) <==> call_ensures(clock_reading, (), reading),
{
}

/// The timestamp for a clock reading; zero before the epoch.
pub open spec fn seconds_of(reading: Option<u64>) -> u64 {
    match reading {
        Some(secs) => secs,
        None => 0,
    }
}

/// Calls `f`.
fn ask<F: Fn() -> Option<u64>>(f: F) -> (r: Option<u64>)
    requires
        f.requires(()),
    ensures
        f.ensures((), r),
{
    f()
}

/// The timestamp for a clock reading.
pub fn timestamp_seconds(reading: Option<u64>) -> (r: u64)
    ensures
        r == seconds_of(reading),
{
    match reading {
        Some(secs) => secs,
        None => 0,
    }
}

/// Seconds since the Unix epoch by the system clock: the timestamp for what the
/// clock gave when it was asked.
pub fn unix_timestamp_seconds() -> (r: u64)
    ensures
        exists|reading: Option<u64>| #[trigger] clock_gave(reading) && r == seconds_of(reading),
{
    let reading = ask(clock_reading);
    assert(clock_gave(reading));
    timestamp_seconds(reading)
}

/// How a temperature stands in a status message.
pub open spec fn temperature_json(temperature_c: Option<Single>) -> Seq<char> {
    match temperature_c {
        Some(temp) => tenths_text(temp),
        None => "null"@,
    }
}

/// The status message of a moment.
pub open spec fn payload_text(
    state: u8,
    temperature_c: Option<Single>,
    warn_temp_c: Single,
    critical_temp_c: Single,
    ts: u64,
) -> Seq<char> {
    "{\"state\":\""@ + state_name(state) + "\",\"temp_c\":"@ + temperature_json(temperature_c)
        + ",\"warn_c\":"@ + tenths_text(warn_temp_c) + ",\"crit_c\":"@ + tenths_text(
        critical_temp_c,
    ) + ",\"ts\":"@ + decimal(ts as nat) + ",\"recommendation\":\""@ + recommendation(state)
        + "\"}"@
}

/// Writes the status message of a given moment.
pub fn thermal_payload_at(
    state: u8,
    temperature_c: Option<Single>,
    warn_temp_c: Single,
    critical_temp_c: Single,
    ts: u64,
) -> (r: String)
    ensures
        r@ == payload_text(state, temperature_c, warn_temp_c, critical_temp_c, ts),
{
    let temp_json = match temperature_c {
        Some(temp) => format_tenths(temp),
        None => "null".to_string(),
    };
    let mut text = "{\"state\":\"".to_string();
    text.append(thermal_state_name(state));
    text.append("\",\"temp_c\":");
    text.append(temp_json.as_str());
    text.append(",\"warn_c\":");
    text.append(format_tenths(warn_temp_c).as_str());
    text.append(",\"crit_c\":");
    text.append(format_tenths(critical_temp_c).as_str());
    text.append(",\"ts\":");
    text.append(decimal_text(ts as u128).as_str());
    text.append(",\"recommendation\":\"");
    text.append(thermal_recommendation(state));
    text.append("\"}");
    text
}

/// Writes the status message of the present moment, by the system clock.
pub fn thermal_payload(
    state: u8,
    temperature_c: Option<Single>,
    warn_temp_c: Single,
    critical_temp_c: Single,
) -> (r: String)
    ensures
        exists|reading: Option<u64>| #[trigger]
            clock_gave(reading) && r@ == payload_text(
                state,
                temperature_c,
                warn_temp_c,
                critical_temp_c,
                seconds_of(reading),
            ),
{
    let ts = unix_timestamp_seconds();
    thermal_payload_at(state, temperature_c, warn_temp_c, critical_temp_c, ts)
}

} // verus!
