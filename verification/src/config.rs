//! The launch configuration: two arguments and a few environment variables.

use crate::decimal::{format_tenths, tenths_text};
use crate::setup::SetupError;
use crate::single::{lemma_whole_number, Single};
use crate::text::{
    parse_u64, read_setting, setting, spelled_u64, trimmed, trimming_again_changes_nothing,
};
use vstd::arithmetic::power2::{lemma2_to64, lemma_pow2_pos, pow2};
use vstd::prelude::*;
use vstd::string::*;

verus! {

/// The variable that sets the warning temperature.
pub const WARN_TEMP_VARIABLE: &'static str = "STARLIGHT_WARN_TEMP_C";

/// The variable that sets the critical temperature.
pub const CRITICAL_TEMP_VARIABLE: &'static str = "STARLIGHT_CRIT_TEMP_C";

/// The variable that sets the seconds between two temperature checks.
pub const CHECK_INTERVAL_VARIABLE: &'static str = "STARLIGHT_TEMP_CHECK_INTERVAL_SECS";

/// The variable that sets the milliseconds between two rendered frames.
pub const FRAME_INTERVAL_VARIABLE: &'static str = "STARLIGHT_MIN_FRAME_INTERVAL_MS";

/// The variable that names the path of the thermal signal socket.
pub const SIGNAL_SOCKET_VARIABLE: &'static str = "STARLIGHT_SIGNAL_SOCKET";

/// The variable that names the owner of the thermal signal socket.
pub const SIGNAL_SOCKET_OWNER_VARIABLE: &'static str = "STARLIGHT_SIGNAL_SOCKET_OWNER";

/// The bits of the single 82: the default warning temperature.
pub const DEFAULT_WARN_TEMP_C: u32 = 0x42A4_0000;

/// The bits of the single 85: the default critical temperature.
pub const DEFAULT_CRITICAL_TEMP_C: u32 = 0x42AA_0000;

/// Seconds between two temperature checks, by default.
pub const DEFAULT_CHECK_INTERVAL_SECS: u64 = 5;

/// Milliseconds between two rendered frames at least, by default.
pub const DEFAULT_FRAME_INTERVAL_MS: u64 = 100;

/// The values of the environment that the configuration looks at. Temperatures
/// are already read as numbers, where they are numbers.
pub struct Environment {
    pub warn_temp_c: Option<Single>,
    pub critical_temp_c: Option<Single>,
    pub temp_check_interval: Option<String>,
    pub min_frame_interval: Option<String>,
    pub signal_socket: Option<String>,
    pub signal_socket_owner: Option<String>,
    /// The name of the effective user, or why there is none.
    pub effective_user: Result<String, SetupError>,
}

/// The launch configuration.
pub struct Config {
    pub interface_name: String,
    pub framebuffer_path: String,
    pub warn_temp_c: Single,
    pub critical_temp_c: Single,
    pub temp_check_interval_secs: u64,
    /// Shortest gap between rendered frames; zero for none.
    pub min_frame_interval_ms: u64,
    pub signal_socket_path: Option<String>,
    pub signal_socket_owner: String,
}

/// Why a launch is refused.
pub enum ConfigError {
    /// An argument is missing.
    Usage,
    /// The critical temperature is not above the warning temperature.
    Thresholds { critical_temp_c: Single, warn_temp_c: Single },
    /// No owner is named and the effective user has no name.
    Owner(SetupError),
}

/// A temperature setting: the value where it is positive and finite, else the
/// default.
pub open spec fn temp_setting(parsed: Option<Single>, default: Single) -> Single {
    match parsed {
        Some(value) => if value.finite() && value.units() > 0 {
            value
        } else {
            default
        },
        None => default,
    }
}

/// What a setting spells as a number.
pub open spec fn spelled_setting(value: Option<String>) -> Option<u64> {
    match value {
        Some(text) => spelled_u64(text@),
        None => None,
    }
}

/// An interval setting: the value where it is a positive number, else the
/// default.
pub open spec fn interval_setting(value: Option<String>, default: u64) -> u64 {
    match spelled_setting(value) {
        Some(n) => if n > 0 {
            n
        } else {
            default
        },
        None => default,
    }
}

/// A gap setting: the value where it is a number, zero included, else the
/// default.
pub open spec fn gap_setting(value: Option<String>, default: u64) -> u64 {
    match spelled_setting(value) {
        Some(n) => n,
        None => default,
    }
}

/// Reads a temperature setting.
pub fn parse_temp_env(parsed: Option<Single>, default: Single) -> (r: Single)
    ensures
        r == temp_setting(parsed, default),
{
    match parsed {
        Some(value) => if value.is_finite() && value.is_positive() {
            value
        } else {
            default
        },
        None => default,
    }
}

fn parse_number(value: &Option<String>) -> (r: Option<u64>)
    ensures
        r == spelled_setting(*value),
{
    match value {
        Some(text) => parse_u64(text.as_str()),
        None => None,
    }
}

/// Reads an interval setting.
pub fn parse_temp_interval_env(value: &Option<String>, default: u64) -> (r: u64)
    ensures
        r == interval_setting(*value, default),
{
    match parse_number(value) {
        Some(n) => if n > 0 {
            n
        } else {
            default
        },
        None => default,
    }
}

/// Reads the setting of the gap between frames, which may be zero.
pub fn parse_frame_interval_env(value: &Option<String>, default: u64) -> (r: u64)
    ensures
        r == gap_setting(*value, default),
{
    match parse_number(value) {
        Some(n) => n,
        None => default,
    }
}

pub open spec fn thresholds_message(critical_temp_c: Single, warn_temp_c: Single) -> Seq<char> {
    "Environment config invalid: STARLIGHT_CRIT_TEMP_C ("@ + tenths_text(critical_temp_c)
        + ") must be higher than STARLIGHT_WARN_TEMP_C ("@ + tenths_text(warn_temp_c) + ")"@
}

impl ConfigError {
    /// What the program says when it refuses to launch.
    pub open spec fn text(&self) -> Seq<char> {
        match self {
            ConfigError::Usage => "Usage: starlight <interface_name> <framebuffer_name>"@,
            ConfigError::Thresholds { critical_temp_c, warn_temp_c } => thresholds_message(
                *critical_temp_c,
                *warn_temp_c,
            ),
            ConfigError::Owner(e) => e.message@,
        }
    }

    pub fn message(&self) -> (r: String)
        ensures
            r@ == self.text(),
    {
        match self {
            ConfigError::Usage => "Usage: starlight <interface_name> <framebuffer_name>".to_string(),
            ConfigError::Thresholds { critical_temp_c, warn_temp_c } => {
                let mut text =
                    "Environment config invalid: STARLIGHT_CRIT_TEMP_C (".to_string();
                text.append(format_tenths(*critical_temp_c).as_str());
                text.append(") must be higher than STARLIGHT_WARN_TEMP_C (");
                text.append(format_tenths(*warn_temp_c).as_str());
                text.append(")");
                text
            },
            ConfigError::Owner(e) => e.message.clone(),
        }
    }
}

/// The warning temperature that an environment asks for.
pub open spec fn warn_temp(env: Environment) -> Single {
    temp_setting(env.warn_temp_c, Single { bits: DEFAULT_WARN_TEMP_C })
}

/// The critical temperature that an environment asks for.
pub open spec fn critical_temp(env: Environment) -> Single {
    temp_setting(env.critical_temp_c, Single { bits: DEFAULT_CRITICAL_TEMP_C })
}

/// The owner that an environment asks for: the one it names, else the effective
/// user, where that has a name.
pub open spec fn socket_owner(env: Environment) -> Option<Seq<char>> {
    match setting(env.signal_socket_owner) {
        Some(name) => Some(name),
        None => match env.effective_user {
            Ok(name) => Some(name@),
            Err(_) => None,
        },
    }
}

/// `c` is what the arguments and the environment ask for.
pub open spec fn is_requested(c: Config, args: Seq<String>, env: Environment) -> bool {
    &&& c.interface_name@ == args[0]@
    &&& c.framebuffer_path@ == args[1]@
    &&& c.warn_temp_c == warn_temp(env)
    &&& c.critical_temp_c == critical_temp(env)
    &&& c.temp_check_interval_secs == interval_setting(
        env.temp_check_interval,
        DEFAULT_CHECK_INTERVAL_SECS,
    )
    &&& c.min_frame_interval_ms == gap_setting(env.min_frame_interval, DEFAULT_FRAME_INTERVAL_MS)
    &&& (match c.signal_socket_path {
        Some(path) => Some(path@),
        None => None,
    }) == setting(env.signal_socket)
    &&& Some(c.signal_socket_owner@) == socket_owner(env)
}

/// `r` is the configuration for the program's arguments and environment, or the
/// first reason against it: a missing argument, then thresholds out of order,
/// then a socket owner without a name.
pub open spec fn is_outcome(
    r: Result<Config, ConfigError>,
    args: Seq<String>,
    env: Environment,
) -> bool {
    let inverted = warn_temp(env).at_least(critical_temp(env));
    match r {
        Ok(c) => args.len() >= 2 && !inverted && is_requested(c, args, env),
        Err(ConfigError::Usage) => args.len() < 2,
        Err(ConfigError::Thresholds { critical_temp_c, warn_temp_c }) => {
            &&& args.len() >= 2
            &&& inverted
            &&& critical_temp_c == critical_temp(env)
            &&& warn_temp_c == warn_temp(env)
        },
        Err(ConfigError::Owner(e)) => {
            &&& args.len() >= 2
            &&& !inverted
            &&& socket_owner(env) is None
            &&& env.effective_user == Err::<String, SetupError>(e)
        },
    }
}

impl Config {
    /// The configuration for the program's arguments and environment, or the
    /// first reason against it.
    pub fn from_env_and_args(args: &[String], env: Environment) -> (r: Result<Self, ConfigError>)
        ensures
            is_outcome(r, args@, env),
    {
        if args.len() < 2 {
            return Err(ConfigError::Usage);
        }
        let warn_temp_c = parse_temp_env(env.warn_temp_c, Single { bits: DEFAULT_WARN_TEMP_C });
        let critical_temp_c = parse_temp_env(
            env.critical_temp_c,
            Single { bits: DEFAULT_CRITICAL_TEMP_C },
        );
        let temp_check_interval_secs = parse_temp_interval_env(
            &env.temp_check_interval,
            DEFAULT_CHECK_INTERVAL_SECS,
        );
        let min_frame_interval_ms = parse_frame_interval_env(
            &env.min_frame_interval,
            DEFAULT_FRAME_INTERVAL_MS,
        );
        if warn_temp_c.ge(critical_temp_c) {
            return Err(ConfigError::Thresholds { critical_temp_c, warn_temp_c });
        }
        let signal_socket_path = read_setting(&env.signal_socket);
        let signal_socket_owner = match read_setting(&env.signal_socket_owner) {
            Some(name) => name,
            None => match env.effective_user {
                Ok(name) => name,
                Err(e) => {
                    return Err(ConfigError::Owner(e));
                },
            },
        };
        Ok(
            Config {
                interface_name: args[0].clone(),
                framebuffer_path: args[1].clone(),
                warn_temp_c,
                critical_temp_c,
                temp_check_interval_secs,
                min_frame_interval_ms,
                signal_socket_path,
                signal_socket_owner,
            },
        )
    }
}

/// Unless the environment says otherwise, the warning comes at 82 degrees and
/// the stop at 85.
pub proof fn default_thresholds()
    ensures
        (Single { bits: DEFAULT_WARN_TEMP_C }).units() == 82 * pow2(149),
        (Single { bits: DEFAULT_CRITICAL_TEMP_C }).units() == 85 * pow2(149),
        (Single { bits: DEFAULT_WARN_TEMP_C }).finite(),
        (Single { bits: DEFAULT_CRITICAL_TEMP_C }).finite(),
{
    lemma2_to64();
    lemma_whole_number(Single { bits: DEFAULT_WARN_TEMP_C }, 82, 17);
    lemma_whole_number(Single { bits: DEFAULT_CRITICAL_TEMP_C }, 85, 17);
}

/// An accepted configuration has finite positive thresholds, the critical one
/// above the warning one, a positive check interval, and no socket path that is
/// blank or has white space around it.
pub proof fn accepted_config_is_sound(c: Config, args: Seq<String>, env: Environment)
    requires
        is_outcome(Ok(c), args, env),
    ensures
        c.warn_temp_c.finite() && c.critical_temp_c.finite(),
        0 < c.warn_temp_c.units() < c.critical_temp_c.units(),
        c.temp_check_interval_secs > 0,
        c.signal_socket_path matches Some(path) ==> path@.len() > 0 && trimmed(path@) == path@,
{
    default_thresholds();
    lemma_pow2_pos(149);
    if let Some(value) = env.signal_socket {
        trimming_again_changes_nothing(value@);
    }
}

} // verus!
