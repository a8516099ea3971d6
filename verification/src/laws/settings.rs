//! The launch configuration and the readings of the sensors.

use crate::config::{
    parse_frame_interval_env, parse_temp_env, parse_temp_interval_env, temp_setting, Config,
    ConfigError, Environment, CHECK_INTERVAL_VARIABLE, CRITICAL_TEMP_VARIABLE,
    FRAME_INTERVAL_VARIABLE, SIGNAL_SOCKET_OWNER_VARIABLE, SIGNAL_SOCKET_VARIABLE,
    WARN_TEMP_VARIABLE,
};
use crate::decimal::decimal;
use crate::laws::display::{is_closest, lemma_closest};
use crate::laws::numbers::lemma_decimal;
use crate::launch::{run, RunError};
use crate::sensor::{
    celsius_of, read_cpu_temperature_c, sensor_text, FIRST_SENSOR_PATH, SECOND_SENSOR_PATH,
};
use crate::setup::SetupError;
use crate::single::{lemma_whole_number, magnitude, numbers_are_ordered_by_their_bits, Single};
use crate::text::{
    after_plus, all_digits, contains_nul, digits_value, read_setting, trimmed, trimmed_end,
    trimmed_start, white_space,
};
use vstd::arithmetic::power2::{lemma2_to64, pow2};
use vstd::prelude::*;

verus! {

/// A temperature that is set is taken as it is where it is positive and finite,
/// on either side of the default; else the default stands.
pub proof fn set_temperature_is_taken(parsed: Option<Single>, default: Single, r: Single)
    requires
        call_ensures(parse_temp_env, (parsed, default), r),
    ensures
        parsed matches Some(value) ==> 0 < value.bits < 0x7f80_0000 ==> r == value,
        parsed matches Some(value) ==> !(0 < value.bits < 0x7f80_0000) ==> r == default,
        parsed is None ==> r == default,
{
    if let Some(value) = parsed {
        numbers_are_ordered_by_their_bits(Single { bits: 0 }, value);
        assert(magnitude(0) == 0);
    }
}

/// Each setting has a variable of its own, and each sensor its own path.
pub proof fn settings_and_sensors_have_their_names()
    ensures
        WARN_TEMP_VARIABLE@ == "STARLIGHT_WARN_TEMP_C"@,
        CRITICAL_TEMP_VARIABLE@ == "STARLIGHT_CRIT_TEMP_C"@,
        CHECK_INTERVAL_VARIABLE@ == "STARLIGHT_TEMP_CHECK_INTERVAL_SECS"@,
        FRAME_INTERVAL_VARIABLE@ == "STARLIGHT_MIN_FRAME_INTERVAL_MS"@,
        SIGNAL_SOCKET_VARIABLE@ == "STARLIGHT_SIGNAL_SOCKET"@,
        SIGNAL_SOCKET_OWNER_VARIABLE@ == "STARLIGHT_SIGNAL_SOCKET_OWNER"@,
        FIRST_SENSOR_PATH@ == "/sys/class/thermal/thermal_zone0/temp"@,
        SECOND_SENSOR_PATH@ == "/sys/class/thermal/thermal_zone1/temp"@,
{
}

/// A text after its plus sign, where it begins with one.
pub open spec fn past_plus(text: Seq<char>) -> Seq<char> {
    if text.len() > 0 && text[0] == '+' {
        text.drop_first()
    } else {
        text
    }
}

/// A text spells a number with decimal digits, after a plus sign or not.
pub open spec fn spells(text: Seq<char>, n: nat) -> bool {
    &&& past_plus(text).len() > 0
    &&& forall|i: int|
        0 <= i < past_plus(text).len() ==> '0' <= #[trigger] past_plus(text)[i] <= '9'
    &&& digits_value(past_plus(text)) == n
}

/// Every number can be spelled, with or without a plus sign.
pub proof fn numbers_can_be_spelled(n: nat)
    ensures
        spells(decimal(n), n),
        spells(seq!['+'] + decimal(n), n),
{
    lemma_decimal(n);
    assert((seq!['+'] + decimal(n)).drop_first() =~= decimal(n));
    assert(decimal(n)[0] != '+');
}

/// An interval that is set is taken where its text spells a positive number that
/// 64 bits can hold; else the default stands. A gap may be zero besides.
pub proof fn set_interval_is_taken(value: &Option<String>, default: u64, interval: u64, gap: u64)
    requires
        call_ensures(parse_temp_interval_env, (value, default), interval),
        call_ensures(parse_frame_interval_env, (value, default), gap),
    ensures
        value is None ==> interval == default && gap == default,
        value matches Some(text) ==> forall|n: nat| #[trigger]
            spells(text@, n) && n <= u64::MAX ==> gap == n && interval == if n > 0 {
                n
            } else {
                default as nat
            },
        value matches Some(text) ==> (forall|n: nat| #[trigger]
            spells(text@, n) ==> n > u64::MAX) ==> interval == default && gap == default,
{
    if let Some(text) = value {
        let digits = past_plus(text@);
        assert(digits == after_plus(text@));
        if digits.len() > 0 && all_digits(digits) {
            assert(spells(text@, digits_value(digits)));
        }
    }
}

/// `r` is `s` without white space at its ends: `s` is white space, `r` and white
/// space in a row, and `r` neither begins nor ends with any.
pub open spec fn is_trimmed(s: Seq<char>, r: Seq<char>, from: int, to: int) -> bool {
    &&& 0 <= from <= to <= s.len()
    &&& r == s.subrange(from, to)
    &&& forall|i: int| 0 <= i < from || to <= i < s.len() ==> white_space(#[trigger] s[i])
    &&& r.len() > 0 ==> !white_space(r[0]) && !white_space(r.last())
}

proof fn lemma_start(s: Seq<char>) -> (from: int)
    ensures
        0 <= from <= s.len(),
        trimmed_start(s) == s.subrange(from, s.len() as int),
        forall|i: int| 0 <= i < from ==> white_space(#[trigger] s[i]),
        from < s.len() ==> !white_space(s[from]),
    decreases s.len(),
{
    if s.len() > 0 && white_space(s[0]) {
        let rest = s.drop_first();
        let f = lemma_start(rest);
        assert(s.subrange(f + 1, s.len() as int) =~= rest.subrange(f, rest.len() as int));
        assert forall|i: int| 0 <= i < f + 1 implies white_space(#[trigger] s[i]) by {
            if i > 0 {
                assert(rest[i - 1] == s[i]);
            }
        }
        f + 1
    } else {
        assert(s.subrange(0, s.len() as int) =~= s);
        0
    }
}

proof fn lemma_end(s: Seq<char>) -> (to: int)
    ensures
        0 <= to <= s.len(),
        trimmed_end(s) == s.subrange(0, to),
        forall|i: int| to <= i < s.len() ==> white_space(#[trigger] s[i]),
        to > 0 ==> !white_space(s[to - 1]),
    decreases s.len(),
{
    if s.len() > 0 && white_space(s.last()) {
        let rest = s.drop_last();
        let t = lemma_end(rest);
        assert(s.subrange(0, t) =~= rest.subrange(0, t));
        assert forall|i: int| t <= i < s.len() implies white_space(#[trigger] s[i]) by {
            if i < rest.len() {
                assert(rest[i] == s[i]);
            }
        }
        t
    } else {
        assert(s.subrange(0, s.len() as int) =~= s);
        s.len() as int
    }
}

/// Trimming takes the white space off both ends, and nothing else.
pub proof fn trimming_takes_white_space_off(s: Seq<char>)
    ensures
        exists|from: int, to: int| #[trigger] is_trimmed(s, trimmed(s), from, to),
{
    let from = lemma_start(s);
    let middle = trimmed_start(s);
    let to = lemma_end(middle);
    assert(trimmed(s) =~= s.subrange(from, from + to));
    assert forall|i: int| 0 <= i < from || from + to <= i < s.len() implies white_space(
        #[trigger] s[i],
    ) by {
        if i >= from + to {
            assert(middle[i - from] == s[i]);
        }
    }
    assert(is_trimmed(s, trimmed(s), from, from + to));
}

/// A setting is its text without white space around it, and one that is blank or
/// absent is none. So is the text of a sensor.
pub proof fn settings_are_trimmed(
    value: &Option<String>,
    r: Option<String>,
    raw: &str,
    inner: &str,
)
    requires
        call_ensures(read_setting, (value,), r),
        call_ensures(sensor_text, (raw,), inner),
    ensures
        value is None ==> r is None,
        r matches Some(name) ==> name@.len() > 0 && value is Some && exists|from: int, to: int|
            #[trigger] is_trimmed(value->0@, name@, from, to),
        value matches Some(text) ==> r is None ==> forall|i: int|
            0 <= i < text@.len() ==> white_space(#[trigger] text@[i]),
        exists|from: int, to: int| #[trigger] is_trimmed(raw@, inner@, from, to),
{
    trimming_takes_white_space_off(raw@);
    if let Some(text) = value {
        trimming_takes_white_space_off(text@);
        let (from, to) = choose|from: int, to: int| #[trigger]
            is_trimmed(text@, trimmed(text@), from, to);
    }
}

/// A text is found to hold a NUL exactly where one of its characters is one.
pub proof fn nul_is_found(s: &str, r: bool)
    requires
        call_ensures(contains_nul, (s,), r),
    ensures
        r <==> exists|i: int| 0 <= i < s@.len() && #[trigger] s@[i] == '\0',
{
    assert forall|i: int| 0 <= i < s@.len() implies (#[trigger] s@[i] as u32 == 0 <==> s@[i]
        == '\0') by {
        lemma_nul(s@[i]);
    }
    if r {
        let i = choose|i: int| 0 <= i < s@.len() && #[trigger] s@[i] as u32 == 0;
        assert(s@[i] == '\0');
    }
}

proof fn lemma_nul(c: char)
    ensures
        c as u32 == 0 <==> c == '\0',
{
}

/// The threshold that a setting asks for: the value that is set where it is
/// positive and finite, else `default_bits`.
pub open spec fn asked_for(set: Option<Single>, default_bits: u32) -> Single {
    if set is Some && 0 < set->0.bits < 0x7f80_0000 {
        set->0
    } else {
        Single { bits: default_bits }
    }
}

/// A program is configured by its first two arguments and by the environment,
/// unless an argument is missing, the critical temperature is not above the
/// warning temperature, or the signal socket has no owner: the first of these
/// that holds is the reason to refuse.
pub proof fn configuration_is_what_was_asked_for(
    args: &[String],
    env: Environment,
    r: Result<Config, ConfigError>,
)
    requires
        call_ensures(Config::from_env_and_args, (args, env), r),
    ensures
        ({
            // The bits of 82 and of 85.
            let warn = asked_for(env.warn_temp_c, 0x42A4_0000);
            let critical = asked_for(env.critical_temp_c, 0x42AA_0000);
            match r {
                Ok(c) => {
                    &&& args@.len() >= 2
                    &&& c.interface_name@ == args@[0]@
                    &&& c.framebuffer_path@ == args@[1]@
                    &&& c.warn_temp_c == warn && c.critical_temp_c == critical
                    &&& warn.units() < critical.units()
                },
                Err(ConfigError::Usage) => args@.len() < 2,
                Err(ConfigError::Thresholds { critical_temp_c, warn_temp_c }) => {
                    &&& args@.len() >= 2
                    &&& critical_temp_c == critical && warn_temp_c == warn
                    &&& warn.units() >= critical.units()
                },
                Err(ConfigError::Owner(e)) => {
                    &&& args@.len() >= 2
                    &&& warn.units() < critical.units()
                    &&& env.effective_user == Err::<String, SetupError>(e)
                },
            }
        }),
{
    lemma_asked_for(env.warn_temp_c, 0x42A4_0000);
    lemma_asked_for(env.critical_temp_c, 0x42AA_0000);
}

proof fn lemma_asked_for(set: Option<Single>, default_bits: u32)
    requires
        0 < default_bits < 0x7f80_0000,
    ensures
        asked_for(set, default_bits) == temp_setting(
            set,
            Single { bits: default_bits },
        ),
        !asked_for(set, default_bits).nan(),
{
    if let Some(value) = set {
        numbers_are_ordered_by_their_bits(Single { bits: 0 }, value);
        assert(magnitude(0) == 0);
    }
}

/// The intervals of a configuration are those that are set, or else five seconds
/// between checks and 100 milliseconds between frames.
pub proof fn configured_intervals_are_the_set_ones(
    args: &[String],
    env: Environment,
    c: Config,
    interval: u64,
    gap: u64,
)
    requires
        call_ensures(Config::from_env_and_args, (args, env), Ok::<Config, ConfigError>(c)),
        call_ensures(parse_temp_interval_env, (&env.temp_check_interval, 5u64), interval),
        call_ensures(parse_frame_interval_env, (&env.min_frame_interval, 100u64), gap),
    ensures
        c.temp_check_interval_secs == interval,
        c.min_frame_interval_ms == gap,
{
}

/// The signal socket of a configuration is where its setting says. Its owner is
/// the one that is set, or else the effective user.
pub proof fn configured_socket_is_the_set_one(
    args: &[String],
    env: Environment,
    r: Result<Config, ConfigError>,
    path: Option<String>,
    owner: Option<String>,
)
    requires
        call_ensures(Config::from_env_and_args, (args, env), r),
        call_ensures(read_setting, (&env.signal_socket,), path),
        call_ensures(read_setting, (&env.signal_socket_owner,), owner),
    ensures
        r matches Ok(c) ==> {
            &&& c.signal_socket_path is Some <==> path is Some
            &&& path matches Some(p) ==> c.signal_socket_path->0@ == p@
            &&& owner matches Some(name) ==> c.signal_socket_owner@ == name@
            &&& owner is None ==> (env.effective_user matches Ok(name) && c.signal_socket_owner@
                == name@)
        },
        r matches Err(ConfigError::Owner(_)) ==> owner is None && env.effective_user is Err,
{
}

/// The defaults of the thresholds are 82 and 85 degrees.
pub proof fn defaults_are_82_and_85_degrees()
    ensures
        (Single { bits: 0x42A4_0000 }).units() == 82 * pow2(149),
        (Single { bits: 0x42AA_0000 }).units() == 85 * pow2(149),
{
    lemma2_to64();
    lemma_whole_number(Single { bits: 0x42A4_0000 }, 82, 17);
    lemma_whole_number(Single { bits: 0x42AA_0000 }, 85, 17);
}

/// A program runs on Linux alone, with the configuration or the refusal that its
/// arguments and environment give.
pub proof fn program_runs_as_configured(
    linux: bool,
    args: &[String],
    env: Environment,
    r: Result<Config, RunError>,
    configured: Result<Config, ConfigError>,
)
    requires
        call_ensures(run, (linux, args, env), r),
        call_ensures(Config::from_env_and_args, (args, env), configured),
    ensures
        r matches Err(RunError::Platform) <==> !linux,
        linux ==> match configured {
            Ok(c) => r is Ok && same_config(r->Ok_0, c),
            Err(ConfigError::Usage) => r matches Err(RunError::Config(ConfigError::Usage)),
            Err(ConfigError::Thresholds { critical_temp_c, warn_temp_c }) => r == Err::<
                Config,
                RunError,
            >(RunError::Config(ConfigError::Thresholds { critical_temp_c, warn_temp_c })),
            Err(ConfigError::Owner(e)) => r == Err::<Config, RunError>(
                RunError::Config(ConfigError::Owner(e)),
            ),
        },
{
}

/// Two configurations with the same contents.
pub open spec fn same_config(a: Config, b: Config) -> bool {
    &&& a.interface_name@ == b.interface_name@
    &&& a.framebuffer_path@ == b.framebuffer_path@
    &&& a.warn_temp_c == b.warn_temp_c
    &&& a.critical_temp_c == b.critical_temp_c
    &&& a.temp_check_interval_secs == b.temp_check_interval_secs
    &&& a.min_frame_interval_ms == b.min_frame_interval_ms
    &&& a.signal_socket_path is Some <==> b.signal_socket_path is Some
    &&& a.signal_socket_path is Some ==> a.signal_socket_path->0@ == b.signal_socket_path->0@
    &&& a.signal_socket_owner@ == b.signal_socket_owner@
}

/// A raw reading of up to 200 is the temperature itself. A greater one is in
/// thousandths of a degree, and becomes the number nearest to its thousandth.
pub proof fn great_readings_are_thousandths(raw: Single, celsius: Single)
    requires
        call_ensures(celsius_of, (raw,), celsius),
    ensures
        // The bits of 200, and of infinity.
        0x4348_0000 < raw.bits < 0x7f80_0000 ==> is_closest(celsius, raw.units(), 1000),
        !(0x4348_0000 < raw.bits < 0x7f80_0000) ==> celsius == raw,
        (Single { bits: 0x4348_0000 }).units() == 200 * pow2(149),
{
    lemma2_to64();
    lemma_whole_number(Single { bits: 0x4348_0000 }, 200, 16);
    numbers_are_ordered_by_their_bits(Single { bits: 0x4348_0000 }, raw);
    if 0x4348_0000 < raw.bits < 0x7f80_0000 {
        lemma_closest(celsius, raw.units() as nat, 1000);
    }
}

/// The temperature is that of the first sensor that gave a reading; there is
/// none exactly where no sensor gave one.
pub proof fn first_reading_counts(readings: &[Option<Single>], r: Option<Single>, i: int)
    requires
        call_ensures(read_cpu_temperature_c, (readings,), r),
        0 <= i < readings@.len(),
        forall|k: int| 0 <= k < i ==> #[trigger] readings@[k] is None,
    ensures
        readings@[i] matches Some(raw) ==> r is Some && (if 0x4348_0000 < raw.bits < 0x7f80_0000 {
            is_closest(r->0, raw.units(), 1000)
        } else {
            r->0 == raw
        }),
        (forall|k: int| 0 <= k < readings@.len() ==> #[trigger] readings@[k] is None) <==> r
            is None,
{
    if let Some(raw) = readings@[i] {
        numbers_are_ordered_by_their_bits(Single { bits: 0x4348_0000 }, raw);
        if 0x4348_0000 < raw.bits < 0x7f80_0000 {
            lemma_closest(r->0, raw.units() as nat, 1000);
        }
    }
}

} // verus!
