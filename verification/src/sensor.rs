//! Readings of the CPU's temperature sensors.

use crate::rounding::{nearest, quotient};
use crate::single::{
    lemma_magnitude_increases, lemma_whole_number, magnitude, Single, HIDDEN_BIT,
};
use crate::text::trimmed;
use vstd::arithmetic::power2::{lemma2_to64, pow2};
use vstd::prelude::*;

verus! {

/// The first sensor to ask.
pub const FIRST_SENSOR_PATH: &'static str = "/sys/class/thermal/thermal_zone0/temp";

/// The sensor to ask where the first gives no number.
pub const SECOND_SENSOR_PATH: &'static str = "/sys/class/thermal/thermal_zone1/temp";

/// The bits of the single 200: a reading above it is in thousandths of a degree.
pub const MILLIDEGREES_ABOVE: u32 = 0x4348_0000;

/// The text of a sensor, without the white space around it.
pub fn sensor_text(raw: &str) -> (r: &str)
    ensures
        r@ == trimmed(raw@),
{
    raw.trim()
}

/// `celsius` is the temperature that the raw reading `raw` stands for.
pub open spec fn is_celsius(celsius: Single, raw: Single) -> bool {
    if raw.above(Single { bits: MILLIDEGREES_ABOVE }) && raw.finite() {
        nearest(celsius, raw.units() as nat, 1000)
    } else {
        celsius == raw
    }
}

/// The temperature for a raw reading: plain degrees up to 200, thousandths of a
/// degree above.
pub fn celsius_of(raw: Single) -> (celsius: Single)
    ensures
        is_celsius(celsius, raw),
{
    let limit = Single { bits: MILLIDEGREES_ABOVE };
    if raw.gt(limit) && raw.is_finite() {
        proof {
            assert(limit.units() > 0) by {
                lemma_magnitude_increases(0, limit.low());
                assert(magnitude(0) == 0);
            }
            if raw.low() < limit.low() {
                lemma_magnitude_increases(raw.low(), limit.low());
            }
            assert(!raw.negative());
        }
        let exponent = raw.bits / HIDDEN_BIT;
        let fraction = raw.bits % HIDDEN_BIT;
        quotient(HIDDEN_BIT + fraction, exponent - 1, 1000)
    } else {
        raw
    }
}

/// The CPU temperature: that of the first sensor that gave a number.
pub fn read_cpu_temperature_c(readings: &[Option<Single>]) -> (r: Option<Single>)
    ensures
        match r {
            Some(celsius) => exists|i: int|
                {
                    &&& 0 <= i < readings@.len()
                    &&& #[trigger] readings@[i] is Some
                    &&& forall|k: int| 0 <= k < i ==> #[trigger] readings@[k] is None
                    &&& is_celsius(celsius, readings@[i].unwrap())
                },
            None => forall|k: int| 0 <= k < readings@.len() ==> #[trigger] readings@[k] is None,
        },
{
    let mut i: usize = 0;
    while i < readings.len()
        invariant
            i <= readings@.len(),
            forall|k: int| 0 <= k < i ==> #[trigger] readings@[k] is None,
        decreases readings.len() - i,
    {
        if let Some(raw) = readings[i] {
            let celsius = celsius_of(raw);
            assert(readings@[i as int] is Some);
            return Some(celsius);
        }
        i = i + 1;
    }
    None
}

/// The limit between the two scales is 200 degrees.
pub proof fn limit_is_200()
    ensures
        (Single { bits: MILLIDEGREES_ABOVE }).units() == 200 * pow2(149),
{
    lemma2_to64();
    lemma_whole_number(Single { bits: MILLIDEGREES_ABOVE }, 200, 16);
}

} // verus!
