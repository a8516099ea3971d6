//! What the program says on its console.

use crate::config::Config;
use crate::decimal::{decimal, decimal_text, format_tenths, tenths_text};
use crate::runtime::{Report, Submission};
use crate::setup::sentence;
use crate::single::Single;
use vstd::prelude::*;
use vstd::string::*;

verus! {

/// What could not be done when an operation was refused.
pub open spec fn refused_task(submission: Submission) -> Seq<char> {
    match submission {
        Submission::Accept => "submit thermal socket accept"@,
        Submission::AcceptRetry => "reschedule thermal socket accept"@,
        Submission::Capture => "submit packet capture recv"@,
        Submission::FrameWrite => "submit framebuffer write"@,
        Submission::ThermalTick => "schedule thermal check"@,
        Submission::Pulse => "schedule thermal pulse"@,
        Submission::StatusSend => "submit thermal signal send"@,
    }
}

/// The line for a report; `cause` is what the system says of a failure.
pub open spec fn report_line(
    report: Report,
    warn_temp_c: Single,
    critical_temp_c: Single,
    cause: Seq<char>,
) -> Seq<char> {
    match report {
        Report::AcceptFailed => "Thermal signal socket accept error: "@ + cause,
        Report::ReadFailed => "Failed to read packet: "@ + cause,
        Report::FrameWriteFailed => "Framebuffer write failed: "@ + cause,
        Report::ClientListLocked => "Unable to lock thermal signal client list: "@ + cause,
        Report::Critical(temp) => "CRITICAL: CPU temperature "@ + tenths_text(temp) + "°C >= "@
            + tenths_text(critical_temp_c) + "°C, stopping capture"@,
        Report::Warning(temp) => "WARNING: CPU temperature "@ + tenths_text(temp) + "°C >= "@
            + tenths_text(warn_temp_c) + "°C"@,
        Report::Recovered(temp) => "CPU temperature recovered to "@ + tenths_text(temp) + "°C"@,
        Report::NoReading => "Unable to read CPU temperature from /sys/class/thermal/*/temp"@,
        Report::Refused(submission) => "Unable to "@ + refused_task(submission) + ": "@ + cause,
    }
}

fn joined(first: &str, last: &str) -> (r: String)
    ensures
        r@ == first@ + last@,
{
    let mut text = first.to_string();
    text.append(last);
    text
}

fn refused_task_text(submission: Submission) -> (r: &'static str)
    ensures
        r@ == refused_task(submission),
{
    match submission {
        Submission::Accept => "submit thermal socket accept",
        Submission::AcceptRetry => "reschedule thermal socket accept",
        Submission::Capture => "submit packet capture recv",
        Submission::FrameWrite => "submit framebuffer write",
        Submission::ThermalTick => "schedule thermal check",
        Submission::Pulse => "schedule thermal pulse",
        Submission::StatusSend => "submit thermal signal send",
    }
}

/// Writes the line for a report.
pub fn report_text(report: Report, warn_temp_c: Single, critical_temp_c: Single, cause: &str) -> (r:
    String)
    ensures
        r@ == report_line(report, warn_temp_c, critical_temp_c, cause@),
{
    match report {
        Report::AcceptFailed => joined("Thermal signal socket accept error: ", cause),
        Report::ReadFailed => joined("Failed to read packet: ", cause),
        Report::FrameWriteFailed => joined("Framebuffer write failed: ", cause),
        Report::ClientListLocked => joined("Unable to lock thermal signal client list: ", cause),
        Report::Critical(temp) => {
            let reading = format_tenths(temp);
            let mut text = sentence("CRITICAL: CPU temperature ", reading.as_str(), "°C >= ");
            text.append(format_tenths(critical_temp_c).as_str());
            text.append("°C, stopping capture");
            text
        },
        Report::Warning(temp) => {
            let reading = format_tenths(temp);
            let mut text = sentence("WARNING: CPU temperature ", reading.as_str(), "°C >= ");
            text.append(format_tenths(warn_temp_c).as_str());
            text.append("°C");
            text
        },
        Report::Recovered(temp) => {
            let reading = format_tenths(temp);
            sentence("CPU temperature recovered to ", reading.as_str(), "°C")
        },
        Report::NoReading =>
            "Unable to read CPU temperature from /sys/class/thermal/*/temp".to_string(),
        Report::Refused(submission) => {
            let mut text = sentence("Unable to ", refused_task_text(submission), ": ");
            text.append(cause);
            text
        },
    }
}

/// Whether a report goes to the error stream: all but a recovery do.
pub fn is_error(report: Report) -> (r: bool)
    ensures
        r == !(report is Recovered),
{
    match report {
        Report::Recovered(_) => false,
        _ => true,
    }
}

pub open spec fn owner_line(path: Seq<char>, owner: Seq<char>, uid: u32, gid: u32) -> Seq<char> {
    "Initializing thermal signal socket: path="@ + path + " owner="@ + owner + " uid="@ + decimal(
        uid as nat,
    ) + " gid="@ + decimal(gid as nat) + " mode=0660"@
}

/// Writes the line for a signal socket whose owner was found.
pub fn owner_text(path: &str, owner: &str, uid: u32, gid: u32) -> (r: String)
    ensures
        r@ == owner_line(path@, owner@, uid, gid),
{
    let mut text = sentence("Initializing thermal signal socket: path=", path, " owner=");
    text.append(owner);
    text.append(" uid=");
    text.append(decimal_text(uid as u128).as_str());
    text.append(" gid=");
    text.append(decimal_text(gid as u128).as_str());
    text.append(" mode=0660");
    text
}

pub open spec fn start_line(temp: Single) -> Seq<char> {
    "Starting Starlight. Current CPU temperature: "@ + tenths_text(temp) + "°C"@
}

pub open spec fn monitor_line(config: Config) -> Seq<char> {
    "CPU monitor enabled: warning at "@ + tenths_text(config.warn_temp_c) + "°C, shutdown at "@
        + tenths_text(config.critical_temp_c) + "°C (interval: "@ + decimal(
        config.temp_check_interval_secs as nat,
    ) + "s)"@
}

pub open spec fn publisher_line(path: Seq<char>, owner: Seq<char>) -> Seq<char> {
    "Thermal signal publisher listening on: "@ + path + " (owner: "@ + owner + ", mode: 0660)"@
}

/// What is said before the display is opened: the temperature, where there is a
/// reading; the thresholds; and the signal socket, where there is one.
pub open spec fn startup_lines(config: Config, reading: Option<Single>) -> Seq<Seq<char>> {
    (match reading {
        Some(temp) => seq![start_line(temp)],
        None => seq![],
    }) + seq![monitor_line(config)] + (match config.signal_socket_path {
        Some(path) => seq![publisher_line(path@, config.signal_socket_owner@)],
        None => seq![],
    })
}

/// Writes what is said before the display is opened.
pub fn startup_texts(config: &Config, reading: Option<Single>) -> (lines: Vec<String>)
    ensures
        lines@.map_values(|line: String| line@) == startup_lines(*config, reading),
{
    let mut lines: Vec<String> = Vec::new();
    if let Some(temp) = reading {
        let text = format_tenths(temp);
        lines.push(sentence("Starting Starlight. Current CPU temperature: ", text.as_str(), "°C"));
    }
    let warn = format_tenths(config.warn_temp_c);
    let mut monitor = sentence(
        "CPU monitor enabled: warning at ",
        warn.as_str(),
        "°C, shutdown at ",
    );
    monitor.append(format_tenths(config.critical_temp_c).as_str());
    monitor.append("°C (interval: ");
    monitor.append(decimal_text(config.temp_check_interval_secs as u128).as_str());
    monitor.append("s)");
    lines.push(monitor);
    if let Some(path) = &config.signal_socket_path {
        let mut publisher = sentence(
            "Thermal signal publisher listening on: ",
            path.as_str(),
            " (owner: ",
        );
        publisher.append(config.signal_socket_owner.as_str());
        publisher.append(", mode: 0660)");
        lines.push(publisher);
    }
    assert(lines@.map_values(|line: String| line@) =~= startup_lines(*config, reading));
    lines
}

/// Writes what is said when capture has started.
pub fn listening_text(interface_name: &str) -> (r: String)
    ensures
        r@ == "Listening on interface: "@ + interface_name@,
{
    joined("Listening on interface: ", interface_name)
}

} // verus!
