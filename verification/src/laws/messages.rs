//! What is published and what is said.

use crate::config::{Config, ConfigError};
use crate::console::{is_error, listening_text, owner_text, report_text, startup_texts};
use crate::decimal::{decimal, tenths_text};
use crate::launch::RunError;
use crate::publisher::{emit_thermal_signal, line_bytes, Emission, ThermalSignalPublisher};
use crate::runtime::{Report, Submission};
use crate::setup::{framebuffer_error, publisher_error, SetupError};
use crate::single::Single;
use crate::thermal::{
    clock_gave, payload_text, recommendation, seconds_of, state_name, thermal_payload,
    thermal_payload_at, thermal_recommendation, thermal_state_name, timestamp_seconds,
    unix_timestamp_seconds,
};
use vstd::prelude::*;
use vstd::string::*;
use vstd::utf8::encode_utf8;

verus! {

/// `text` begins with `start`.
pub open spec fn begins(text: Seq<char>, start: Seq<char>) -> bool {
    start.len() <= text.len() && text.take(start.len() as int) == start
}

/// `text` ends with `end`.
pub open spec fn ends(text: Seq<char>, end: Seq<char>) -> bool {
    end.len() <= text.len() && text.skip(text.len() - end.len()) == end
}

/// The three states have a name and an advice of their own; any other counts as
/// normal.
pub proof fn states_have_names_and_advice(state: u8, name: &'static str, advice: &'static str)
    requires
        call_ensures(thermal_state_name, (state,), name),
        call_ensures(thermal_recommendation, (state,), advice),
    ensures
        state == 1 ==> name@ == "warning"@ && advice@ == "throttle"@,
        state == 2 ==> name@ == "critical"@ && advice@ == "pause"@,
        state != 1 && state != 2 ==> name@ == "normal"@ && advice@ == "normal"@,
{
}

/// A message names its state at the start and gives the advice for that very
/// state at the end, whatever the temperatures and the time.
pub proof fn message_advises_on_its_own_state(
    state: u8,
    temperature_c: Option<Single>,
    warn_temp_c: Single,
    critical_temp_c: Single,
    ts: u64,
    message: String,
)
    requires
        call_ensures(
            thermal_payload_at,
            (state, temperature_c, warn_temp_c, critical_temp_c, ts),
            message,
        ),
    ensures
        state == 1 ==> begins(message@, "{\"state\":\"warning\","@) && ends(
            message@,
            ",\"recommendation\":\"throttle\"}"@,
        ),
        state == 2 ==> begins(message@, "{\"state\":\"critical\","@) && ends(
            message@,
            ",\"recommendation\":\"pause\"}"@,
        ),
        state != 1 && state != 2 ==> begins(message@, "{\"state\":\"normal\","@) && ends(
            message@,
            ",\"recommendation\":\"normal\"}"@,
        ),
{
    lemma_literals();
    lemma_message(state, temperature_c, warn_temp_c, critical_temp_c, ts);
    let fields = ts_and_temperatures(temperature_c, warn_temp_c, critical_temp_c, ts);
    lemma_message_ends(state_name(state), fields, recommendation(state));
}

proof fn lemma_message_ends(name: Seq<char>, fields: Seq<char>, advice: Seq<char>)
    ensures
        begins(message_of(name, fields, advice), "{\"state\":\""@ + name + "\","@),
        ends(message_of(name, fields, advice), ",\"recommendation\":\""@ + advice + "\"}"@),
{
    let start = "{\"state\":\""@ + name + "\","@;
    let end = ",\"recommendation\":\""@ + advice + "\"}"@;
    let message = message_of(name, fields, advice);
    assert(message =~= start + fields + end);
    assert(message.take(start.len() as int) =~= start);
    assert(message.skip(message.len() - end.len()) =~= end);
}

/// The fields between the state and the advice: the temperature or `null`, the
/// thresholds and the time.
pub open spec fn ts_and_temperatures(
    temperature_c: Option<Single>,
    warn_temp_c: Single,
    critical_temp_c: Single,
    ts: u64,
) -> Seq<char> {
    "\"temp_c\":"@ + (match temperature_c {
        Some(temp) => tenths_text(temp),
        None => "null"@,
    }) + ",\"warn_c\":"@ + tenths_text(warn_temp_c) + ",\"crit_c\":"@ + tenths_text(critical_temp_c)
        + ",\"ts\":"@ + decimal(ts as nat)
}

/// Between its state and its advice a message gives the temperature, the warning
/// threshold, the critical threshold and the time, each under its own name.
pub proof fn message_gives_temperatures_and_time(
    state: u8,
    temperature_c: Option<Single>,
    warn_temp_c: Single,
    critical_temp_c: Single,
    ts: u64,
    message: String,
    name: &'static str,
    advice: &'static str,
)
    requires
        call_ensures(
            thermal_payload_at,
            (state, temperature_c, warn_temp_c, critical_temp_c, ts),
            message,
        ),
        call_ensures(thermal_state_name, (state,), name),
        call_ensures(thermal_recommendation, (state,), advice),
    ensures
        message@ == message_of(
            name@,
            ts_and_temperatures(temperature_c, warn_temp_c, critical_temp_c, ts),
            advice@,
        ),
{
    lemma_message(state, temperature_c, warn_temp_c, critical_temp_c, ts);
}

proof fn lemma_literals()
    ensures
        "\",\"temp_c\":"@ == "\","@ + "\"temp_c\":"@,
        "{\"state\":\"warning\","@ == "{\"state\":\""@ + "warning"@ + "\","@,
        "{\"state\":\"critical\","@ == "{\"state\":\""@ + "critical"@ + "\","@,
        "{\"state\":\"normal\","@ == "{\"state\":\""@ + "normal"@ + "\","@,
        ",\"recommendation\":\"throttle\"}"@ == ",\"recommendation\":\""@ + "throttle"@ + "\"}"@,
        ",\"recommendation\":\"pause\"}"@ == ",\"recommendation\":\""@ + "pause"@ + "\"}"@,
        ",\"recommendation\":\"normal\"}"@ == ",\"recommendation\":\""@ + "normal"@ + "\"}"@,
{
    reveal_strlit("\",\"temp_c\":");
    reveal_strlit("\",");
    reveal_strlit("\"temp_c\":");
    reveal_strlit("{\"state\":\"");
    reveal_strlit("{\"state\":\"warning\",");
    reveal_strlit("{\"state\":\"critical\",");
    reveal_strlit("{\"state\":\"normal\",");
    reveal_strlit("warning");
    reveal_strlit("critical");
    reveal_strlit("normal");
    reveal_strlit(",\"recommendation\":\"");
    reveal_strlit(",\"recommendation\":\"throttle\"}");
    reveal_strlit(",\"recommendation\":\"pause\"}");
    reveal_strlit(",\"recommendation\":\"normal\"}");
    reveal_strlit("throttle");
    reveal_strlit("pause");
    reveal_strlit("\"}");
    assert("\",\"temp_c\":"@ =~= "\","@ + "\"temp_c\":"@);
    assert("{\"state\":\"warning\","@ =~= "{\"state\":\""@ + "warning"@ + "\","@);
    assert("{\"state\":\"critical\","@ =~= "{\"state\":\""@ + "critical"@ + "\","@);
    assert("{\"state\":\"normal\","@ =~= "{\"state\":\""@ + "normal"@ + "\","@);
    assert(",\"recommendation\":\"throttle\"}"@ =~= ",\"recommendation\":\""@ + "throttle"@
        + "\"}"@);
    assert(",\"recommendation\":\"pause\"}"@ =~= ",\"recommendation\":\""@ + "pause"@ + "\"}"@);
    assert(",\"recommendation\":\"normal\"}"@ =~= ",\"recommendation\":\""@ + "normal"@ + "\"}"@);
}

/// A message with this name, these fields and this advice.
pub open spec fn message_of(name: Seq<char>, fields: Seq<char>, advice: Seq<char>) -> Seq<char> {
    "{\"state\":\""@ + name + "\","@ + fields + ",\"recommendation\":\""@ + advice + "\"}"@
}

/// The time in seconds that a reading of the clock stands for.
pub open spec fn time_of(reading: Option<u64>) -> u64 {
    if reading is Some {
        reading->0
    } else {
        0
    }
}

proof fn lemma_message(
    state: u8,
    temperature_c: Option<Single>,
    warn_temp_c: Single,
    critical_temp_c: Single,
    ts: u64,
)
    ensures
        payload_text(state, temperature_c, warn_temp_c, critical_temp_c, ts) == message_of(
            state_name(state),
            ts_and_temperatures(temperature_c, warn_temp_c, critical_temp_c, ts),
            recommendation(state),
        ),
{
    lemma_literals();
    assert(payload_text(state, temperature_c, warn_temp_c, critical_temp_c, ts) =~= message_of(
        state_name(state),
        ts_and_temperatures(temperature_c, warn_temp_c, critical_temp_c, ts),
        recommendation(state),
    ));
}

/// The present message gives the state, the temperatures and the advice that it
/// was asked for, and a time that the clock gave.
pub proof fn present_message_is_of_the_clocks_time(
    state: u8,
    temperature_c: Option<Single>,
    warn_temp_c: Single,
    critical_temp_c: Single,
    message: String,
    name: &'static str,
    advice: &'static str,
)
    requires
        call_ensures(
            thermal_payload,
            (state, temperature_c, warn_temp_c, critical_temp_c),
            message,
        ),
        call_ensures(thermal_state_name, (state,), name),
        call_ensures(thermal_recommendation, (state,), advice),
    ensures
        exists|reading: Option<u64>| #[trigger]
            clock_gave(reading) && message@ == message_of(
                name@,
                ts_and_temperatures(
                    temperature_c,
                    warn_temp_c,
                    critical_temp_c,
                    time_of(reading),
                ),
                advice@,
            ),
{
    let reading = choose|reading: Option<u64>| #[trigger]
        clock_gave(reading) && message@ == payload_text(
            state,
            temperature_c,
            warn_temp_c,
            critical_temp_c,
            seconds_of(reading),
        );
    lemma_message(state, temperature_c, warn_temp_c, critical_temp_c, seconds_of(reading));
    assert(clock_gave(reading));
}

/// The status goes to every subscriber as one present message and a line feed.
pub proof fn status_goes_to_every_subscriber(
    p: &mut ThermalSignalPublisher,
    state: u8,
    temperature_c: Option<Single>,
    warn_temp_c: Single,
    critical_temp_c: Single,
    e: Emission,
    name: &'static str,
    advice: &'static str,
)
    requires
        call_ensures(
            emit_thermal_signal,
            (p, state, temperature_c, warn_temp_c, critical_temp_c),
            e,
        ),
        call_ensures(thermal_state_name, (state,), name),
        call_ensures(thermal_recommendation, (state,), advice),
    ensures
        e.targets@ == old(p)@,
        final(p)@ == old(p)@,
        forall|c: i32| #[trigger]
            final(p).in_flight().count(c) == old(p).in_flight().count(c) + old(
                p,
            )@.to_multiset().count(c),
        exists|reading: Option<u64>| #[trigger]
            clock_gave(reading) && e.line@ == encode_utf8(
                message_of(
                    name@,
                    ts_and_temperatures(
                        temperature_c,
                        warn_temp_c,
                        critical_temp_c,
                        time_of(reading),
                    ),
                    advice@,
                ),
            ).push(10),
{
    let reading = choose|reading: Option<u64>| #[trigger]
        clock_gave(reading) && e.line@ == line_bytes(
            payload_text(
                state,
                temperature_c,
                warn_temp_c,
                critical_temp_c,
                seconds_of(reading),
            ),
        );
    lemma_message(state, temperature_c, warn_temp_c, critical_temp_c, seconds_of(reading));
    assert(clock_gave(reading));
}

/// The timestamp is a time that the clock gave.
pub proof fn timestamp_is_the_clocks(r: u64)
    requires
        call_ensures(unix_timestamp_seconds, (), r),
    ensures
        exists|reading: Option<u64>| #[trigger] clock_gave(reading) && r == time_of(reading),
{
    let reading = choose|reading: Option<u64>| #[trigger]
        clock_gave(reading) && r == seconds_of(reading);
    assert(clock_gave(reading));
}

/// A clock that stands before the epoch counts as the epoch.
pub proof fn time_starts_at_the_epoch(reading: Option<u64>, r: u64)
    requires
        call_ensures(timestamp_seconds, (reading,), r),
    ensures
        reading matches Some(secs) ==> r == secs,
        reading is None ==> r == 0,
{
}

/// A message goes out as its bytes and a line feed, once to each subscriber and
/// in the order in which they came. The subscribers stay.
pub proof fn message_goes_to_every_subscriber(
    p: &mut ThermalSignalPublisher,
    payload: &str,
    e: Emission,
)
    requires
        call_ensures(ThermalSignalPublisher::emit_via, (p, payload), e),
    ensures
        e.line@.len() > 0,
        e.line@.last() == 10,
        e.line@.drop_last() == encode_utf8(payload@),
        e.targets@ == old(p)@,
        final(p)@ == old(p)@,
        forall|c: i32| #[trigger]
            final(p).in_flight().count(c) == old(p).in_flight().count(c) + old(
                p,
            )@.to_multiset().count(c),
{
    assert(e.line@.drop_last() =~= encode_utf8(payload@));
}

/// The line for a report says what happened, with the temperatures or the cause
/// that belong to it.
pub proof fn report_gives_its_cause(
    report: Report,
    warn_temp_c: Single,
    critical_temp_c: Single,
    cause: &str,
    line: String,
)
    requires
        call_ensures(report_text, (report, warn_temp_c, critical_temp_c, cause), line),
    ensures
        report is AcceptFailed ==> line@ == "Thermal signal socket accept error: "@ + cause@,
        report is ReadFailed ==> line@ == "Failed to read packet: "@ + cause@,
        report is FrameWriteFailed ==> line@ == "Framebuffer write failed: "@ + cause@,
        report is ClientListLocked ==> line@ == "Unable to lock thermal signal client list: "@
            + cause@,
        report is NoReading ==> line@
            == "Unable to read CPU temperature from /sys/class/thermal/*/temp"@,
        report matches Report::Critical(temp) ==> line@ == "CRITICAL: CPU temperature "@
            + tenths_text(temp) + "°C >= "@ + tenths_text(critical_temp_c)
            + "°C, stopping capture"@,
        report matches Report::Warning(temp) ==> line@ == "WARNING: CPU temperature "@
            + tenths_text(temp) + "°C >= "@ + tenths_text(warn_temp_c) + "°C"@,
        report matches Report::Recovered(temp) ==> line@ == "CPU temperature recovered to "@
            + tenths_text(temp) + "°C"@,
{
}

/// The line for a refusal says what could not be done, and why.
pub proof fn refusal_says_what_could_not_be_done(
    submission: Submission,
    warn_temp_c: Single,
    critical_temp_c: Single,
    cause: &str,
    line: String,
)
    requires
        call_ensures(
            report_text,
            (Report::Refused(submission), warn_temp_c, critical_temp_c, cause),
            line,
        ),
    ensures
        line@ == "Unable to "@ + (match submission {
            Submission::Accept => "submit thermal socket accept"@,
            Submission::AcceptRetry => "reschedule thermal socket accept"@,
            Submission::Capture => "submit packet capture recv"@,
            Submission::FrameWrite => "submit framebuffer write"@,
            Submission::ThermalTick => "schedule thermal check"@,
            Submission::Pulse => "schedule thermal pulse"@,
            Submission::StatusSend => "submit thermal signal send"@,
        }) + ": "@ + cause@,
{
}

/// All reports but a recovery are errors.
pub proof fn only_recovery_is_good_news(report: Report, r: bool)
    requires
        call_ensures(is_error, (report,), r),
    ensures
        r <==> !(report is Recovered),
{
}

/// Before the display is opened the program says how warm it is, where it knows;
/// its thresholds and the seconds between checks; and where its signal socket
/// is, where it has one.
pub proof fn start_is_announced(config: &Config, reading: Option<Single>, lines: Vec<String>)
    requires
        call_ensures(startup_texts, (config, reading), lines),
    ensures
        ({
            let first: int = if reading is Some {
                1
            } else {
                0
            };
            &&& lines@.len() == first + 1 + (if config.signal_socket_path is Some {
                1int
            } else {
                0
            })
            &&& reading matches Some(temp) ==> lines@[0]@
                == "Starting Starlight. Current CPU temperature: "@ + tenths_text(temp) + "°C"@
            &&& lines@[first]@ == "CPU monitor enabled: warning at "@ + tenths_text(
                config.warn_temp_c,
            ) + "°C, shutdown at "@ + tenths_text(config.critical_temp_c) + "°C (interval: "@
                + decimal(config.temp_check_interval_secs as nat) + "s)"@
            &&& config.signal_socket_path matches Some(path) ==> lines@[first + 1]@
                == "Thermal signal publisher listening on: "@ + path@ + " (owner: "@
                + config.signal_socket_owner@ + ", mode: 0660)"@
        }),
{
    let first: int = if reading is Some {
        1
    } else {
        0
    };
    let said = lines@.map_values(|line: String| line@);
    assert(said.len() == lines@.len());
    assert(lines@[first]@ == said[first]);
    if reading is Some {
        assert(lines@[0]@ == said[0]);
    }
    if config.signal_socket_path is Some {
        assert(lines@[first + 1]@ == said[first + 1]);
    }
}

/// The lines of the start name the socket, its owner and the interface.
pub proof fn start_names_socket_and_interface(
    path: &str,
    owner: &str,
    uid: u32,
    gid: u32,
    owned: String,
    interface_name: &str,
    listening: String,
)
    requires
        call_ensures(owner_text, (path, owner, uid, gid), owned),
        call_ensures(listening_text, (interface_name,), listening),
    ensures
        owned@ == "Initializing thermal signal socket: path="@ + path@ + " owner="@ + owner@
            + " uid="@ + decimal(uid as nat) + " gid="@ + decimal(gid as nat) + " mode=0660"@,
        listening@ == "Listening on interface: "@ + interface_name@,
{
}

/// The failure to open the framebuffer keeps the kind of its cause, names the
/// path and the cause, and says where to look.
pub proof fn framebuffer_failure_names_path_and_cause(
    path: &str,
    cause: SetupError,
    e: SetupError,
)
    requires
        call_ensures(framebuffer_error, (path, cause), e),
    ensures
        e.kind == cause.kind,
        begins(e.message@, "unable to open framebuffer "@ + path@ + ": "@ + cause.message@),
        ends(
            e.message@,
            " (the Sense HAT matrix is the /dev/fb* whose /sys/class/graphics/<fb>/name reads \"RPi-Sense FB\"; the index is not stable across boots or HDMI state)"@,
        ),
{
    let start = "unable to open framebuffer "@ + path@ + ": "@ + cause.message@;
    let hint =
        " (the Sense HAT matrix is the /dev/fb* whose /sys/class/graphics/<fb>/name reads \"RPi-Sense FB\"; the index is not stable across boots or HDMI state)"@;
    assert(e.message@ =~= start + hint);
    assert(e.message@.take(start.len() as int) =~= start);
    assert(e.message@.skip(e.message@.len() - hint.len()) =~= hint);
}

/// The failure to set up the signal socket keeps the kind of its cause, and
/// names the path, the owner and the cause.
pub proof fn publisher_failure_names_path_owner_and_cause(
    path: &str,
    owner: &str,
    cause: SetupError,
    e: SetupError,
)
    requires
        call_ensures(publisher_error, (path, owner, cause), e),
    ensures
        e.kind == cause.kind,
        e.message@ == "unable to initialize signal socket publisher on "@ + path@ + " for owner "@
            + owner@ + ": "@ + cause.message@,
{
}

/// A refused configuration says how to call the program, which threshold is not
/// above which, or what is wrong with the owner.
pub proof fn refused_configuration_says_why(e: &ConfigError, text: String)
    requires
        call_ensures(ConfigError::message, (e,), text),
    ensures
        e is Usage ==> text@ == "Usage: starlight <interface_name> <framebuffer_name>"@,
        e matches ConfigError::Thresholds { critical_temp_c, warn_temp_c } ==> text@
            == "Environment config invalid: STARLIGHT_CRIT_TEMP_C ("@ + tenths_text(
            *critical_temp_c,
        ) + ") must be higher than STARLIGHT_WARN_TEMP_C ("@ + tenths_text(*warn_temp_c) + ")"@,
        e matches ConfigError::Owner(cause) ==> text@ == cause.message@,
{
}

/// A program that does not run says that it needs Linux, or why its
/// configuration was refused.
pub proof fn refused_run_says_why(e: &RunError, text: String)
    requires
        call_ensures(RunError::message, (e,), text),
    ensures
        e is Platform ==> text@
            == "starlight's capture and framebuffer runtime requires Linux (Raspberry Pi + Sense HAT)"@,
        e matches RunError::Config(cause) ==> cause is Usage ==> text@
            == "Usage: starlight <interface_name> <framebuffer_name>"@,
        e matches RunError::Config(ConfigError::Owner(cause)) ==> text@ == cause.message@,
        e matches RunError::Config(
            ConfigError::Thresholds { critical_temp_c, warn_temp_c },
        ) ==> text@ == "Environment config invalid: STARLIGHT_CRIT_TEMP_C ("@ + tenths_text(
            *critical_temp_c,
        ) + ") must be higher than STARLIGHT_WARN_TEMP_C ("@ + tenths_text(*warn_temp_c) + ")"@,
{
}

} // verus!
