//! Packets, network values and display frames as bytes.

use crate::rounding::{distance, nearest, nearest_is_unique, quotient};
use crate::single::{lemma_whole_number, magnitude, Single};
use crate::{
    COMPRESSED_PACKET_SIZE, FRAMEBUFFER_SIZE_BYTES, PACKET_VECTOR_SIZE, THERMAL_STATE_CRITICAL,
    THERMAL_STATE_WARNING,
};
use vstd::arithmetic::power2::{lemma2_to64, lemma_pow2_pos, pow2};
use vstd::prelude::*;

verus! {

/// `s` is the single nearest to `byte / 255`.
pub open spec fn is_byte_fraction(s: Single, byte: u8) -> bool {
    nearest(s, byte as nat * pow2(149), 255)
}

/// `v` is the network's input for the packet `bytes`: one fraction for each of
/// the first bytes, then zeros.
pub open spec fn is_packet_vector(v: Seq<Single>, bytes: Seq<u8>) -> bool {
    &&& v.len() == PACKET_VECTOR_SIZE
    &&& forall|i: int|
        #![trigger v[i]]
        0 <= i < PACKET_VECTOR_SIZE ==> if i < bytes.len() {
            is_byte_fraction(v[i], bytes[i])
        } else {
            v[i].bits == 0
        }
}

/// Zero is the fraction of the byte zero.
proof fn lemma_zero_fraction()
    ensures
        is_byte_fraction(Single { bits: 0 }, 0),
{
    let zero = Single { bits: 0 };
    assert(magnitude(0) == 0);
    assert(0 * pow2(149) == 0);
    assert(distance(zero, 0, 255) == 0);
    assert forall|t: Single| t.finite() && t.units() != zero.units() implies distance(zero, 0, 255)
        != #[trigger] distance(t, 0, 255) by {}
}

/// Scales a byte to the range from zero to one.
pub fn byte_fraction(byte: u8) -> (s: Single)
    ensures
        is_byte_fraction(s, byte),
{
    if byte == 0 {
        proof {
            lemma_zero_fraction();
        }
        Single { bits: 0 }
    } else {
        quotient(byte as u32, 149, 255)
    }
}

/// The network's input for a packet: the first bytes scaled to the range from
/// zero to one, padded with zeros to the fixed length.
pub fn bytes_to_f32_vector(bytes: &[u8]) -> (v: Vec<Single>)
    ensures
        is_packet_vector(v@, bytes@),
{
    let mut v: Vec<Single> = Vec::with_capacity(PACKET_VECTOR_SIZE);
    let mut i: usize = 0;
    while i < PACKET_VECTOR_SIZE
        invariant
            i <= PACKET_VECTOR_SIZE,
            v@.len() == i,
            forall|k: int|
                #![trigger v@[k]]
                0 <= k < i ==> if k < bytes@.len() {
                    is_byte_fraction(v@[k], bytes@[k])
                } else {
                    v@[k].bits == 0
                },
        decreases PACKET_VECTOR_SIZE - i,
    {
        if i < bytes.len() {
            v.push(byte_fraction(bytes[i]));
        } else {
            v.push(Single { bits: 0 });
        }
        i = i + 1;
    }
    v
}

/// Byte `k` of a word in little-endian order.
pub open spec fn le_byte(word: u32, k: int) -> u8 {
    if k == 0 {
        (word % 0x100) as u8
    } else if k == 1 {
        (word / 0x100 % 0x100) as u8
    } else if k == 2 {
        (word / 0x1_0000 % 0x100) as u8
    } else {
        (word / 0x100_0000) as u8
    }
}

/// The word that four bytes hold in little-endian order.
pub open spec fn le_word(bytes: Seq<u8>, at: int) -> int {
    bytes[at] + 0x100 * bytes[at + 1] + 0x1_0000 * bytes[at + 2] + 0x100_0000 * bytes[at + 3]
}

/// The bits of payload value `i`, zero past the end of the payload.
pub open spec fn payload_word(compressed: Seq<Single>, i: int) -> u32 {
    if i < compressed.len() {
        compressed[i].bits
    } else {
        0
    }
}

/// `frame` shows the payload: each value as four bytes, least significant
/// first, cut off or padded with zeros to the size of the matrix.
pub open spec fn is_payload_frame(frame: Seq<u8>, compressed: Seq<Single>) -> bool {
    &&& frame.len() == FRAMEBUFFER_SIZE_BYTES
    &&& forall|i: int|
        0 <= i < FRAMEBUFFER_SIZE_BYTES ==> #[trigger] frame[i] == le_byte(
            payload_word(compressed, i / 4),
            i % 4,
        )
}

/// Lays the network's values out as a display frame.
pub fn compressed_payload_to_frame_bytes(compressed: &[Single]) -> (frame: [u8;
    FRAMEBUFFER_SIZE_BYTES])
    ensures
        is_payload_frame(frame@, compressed@),
{
    let mut frame = [0u8; FRAMEBUFFER_SIZE_BYTES];
    let mut i: usize = 0;
    while i < COMPRESSED_PACKET_SIZE
        invariant
            i <= COMPRESSED_PACKET_SIZE,
            forall|k: int|
                0 <= k < 4 * i ==> #[trigger] frame@[k] == le_byte(
                    payload_word(compressed@, k / 4),
                    k % 4,
                ),
        decreases COMPRESSED_PACKET_SIZE - i,
    {
        let word: u32 = if i < compressed.len() {
            compressed[i].bits
        } else {
            0
        };
        frame[4 * i] = (word % 0x100) as u8;
        frame[4 * i + 1] = (word / 0x100 % 0x100) as u8;
        frame[4 * i + 2] = (word / 0x1_0000 % 0x100) as u8;
        frame[4 * i + 3] = (word / 0x100_0000) as u8;
        i = i + 1;
    }
    frame
}

/// A dark matrix.
pub open spec fn is_clear_frame(frame: Seq<u8>) -> bool {
    &&& frame.len() == FRAMEBUFFER_SIZE_BYTES
    &&& forall|i: int| 0 <= i < FRAMEBUFFER_SIZE_BYTES ==> #[trigger] frame[i] == 0
}

/// The byte at an even or odd position of the pulse for a thermal state:
/// yellow while warning, red once critical, dark otherwise.
pub open spec fn pulse_byte(state: u8, even: bool) -> u8 {
    if state == THERMAL_STATE_WARNING {
        if even {
            0xFF
        } else {
            0xF0
        }
    } else if state == THERMAL_STATE_CRITICAL && even {
        0xFF
    } else {
        0
    }
}

/// The lit half of the pulse for a thermal state, on all 64 pixels.
pub open spec fn is_pulse_frame(frame: Seq<u8>, state: u8) -> bool {
    &&& frame.len() == FRAMEBUFFER_SIZE_BYTES
    &&& forall|i: int|
        0 <= i < FRAMEBUFFER_SIZE_BYTES ==> #[trigger] frame[i] == pulse_byte(state, i % 2 == 0)
}

/// A dark frame.
pub fn clear_frame() -> (frame: Vec<u8>)
    ensures
        is_clear_frame(frame@),
{
    vec![0u8; FRAMEBUFFER_SIZE_BYTES]
}

/// A frame of 64 pixels with the same two bytes each.
fn uniform_frame(first: u8, second: u8) -> (frame: Vec<u8>)
    ensures
        frame@.len() == FRAMEBUFFER_SIZE_BYTES,
        forall|i: int|
            0 <= i < FRAMEBUFFER_SIZE_BYTES ==> #[trigger] frame@[i] == if i % 2 == 0 {
                first
            } else {
                second
            },
{
    let mut frame: Vec<u8> = Vec::with_capacity(FRAMEBUFFER_SIZE_BYTES);
    let mut i: usize = 0;
    while i < 64
        invariant
            i <= 64,
            frame@.len() == 2 * i,
            forall|k: int|
                0 <= k < 2 * i ==> #[trigger] frame@[k] == if k % 2 == 0 {
                    first
                } else {
                    second
                },
        decreases 64 - i,
    {
        frame.push(first);
        frame.push(second);
        i = i + 1;
    }
    frame
}

/// The lit pulse for a thermal state, 16 bits per pixel.
pub fn pulse_frame(state: u8) -> (frame: Vec<u8>)
    ensures
        is_pulse_frame(frame@, state),
{
    if state == THERMAL_STATE_WARNING {
        uniform_frame(0xFF, 0xF0)
    } else if state == THERMAL_STATE_CRITICAL {
        uniform_frame(0xFF, 0)
    } else {
        clear_frame()
    }
}

/// One picture of the power-on sequence, and how long it stays.
pub struct SplashStep {
    pub frame: Vec<u8>,
    pub hold_secs: u64,
}

/// Blue on the first row, dark below.
pub open spec fn is_bars_frame(frame: Seq<u8>) -> bool {
    &&& frame.len() == FRAMEBUFFER_SIZE_BYTES
    &&& forall|i: int|
        0 <= i < FRAMEBUFFER_SIZE_BYTES ==> #[trigger] frame[i] == if i < 16 && i % 2 == 1 {
            0x0Fu8
        } else {
            0
        }
}

fn bars_frame() -> (frame: Vec<u8>)
    ensures
        is_bars_frame(frame@),
{
    let mut frame = clear_frame();
    let mut i: usize = 0;
    while i < 8
        invariant
            i <= 8,
            frame@.len() == FRAMEBUFFER_SIZE_BYTES,
            forall|k: int|
                0 <= k < FRAMEBUFFER_SIZE_BYTES ==> #[trigger] frame@[k] == if k < 2 * i && k % 2
                    == 1 {
                    0x0Fu8
                } else {
                    0
                },
        decreases 8 - i,
    {
        frame[2 * i + 1] = 0x0F;
        i = i + 1;
    }
    frame
}

/// The power-on sequence: blue bars for three seconds, dark, a red wash for
/// three seconds, dark.
pub fn startup_splash() -> (steps: Vec<SplashStep>)
    ensures
        steps@.len() == 4,
        is_bars_frame(steps@[0].frame@) && steps@[0].hold_secs == 3,
        is_clear_frame(steps@[1].frame@) && steps@[1].hold_secs == 0,
        is_pulse_frame(steps@[2].frame@, THERMAL_STATE_CRITICAL) && steps@[2].hold_secs == 3,
        is_clear_frame(steps@[3].frame@) && steps@[3].hold_secs == 0,
{
    let mut steps: Vec<SplashStep> = Vec::new();
    steps.push(SplashStep { frame: bars_frame(), hold_secs: 3 });
    steps.push(SplashStep { frame: clear_frame(), hold_secs: 0 });
    steps.push(SplashStep { frame: uniform_frame(0xFF, 0), hold_secs: 3 });
    steps.push(SplashStep { frame: clear_frame(), hold_secs: 0 });
    steps
}

/// Readies a used capture buffer for the next packet: full length, all zero.
pub fn reset_capture_buffer(raw: Vec<u8>) -> (buf: Vec<u8>)
    ensures
        buf@ == Seq::new(PACKET_VECTOR_SIZE as nat, |i: int| 0u8),
{
    let mut buf = raw;
    buf.clear();
    buf.resize(PACKET_VECTOR_SIZE, 0);
    assert(buf@ =~= Seq::new(PACKET_VECTOR_SIZE as nat, |i: int| 0u8));
    buf
}

/// A frame gives back the first 32 values of its payload, bit for bit, and
/// zeros past the payload's end.
pub proof fn frame_gives_back_payload(frame: Seq<u8>, compressed: Seq<Single>, j: int)
    requires
        is_payload_frame(frame, compressed),
        0 <= j < COMPRESSED_PACKET_SIZE,
    ensures
        le_word(frame, 4 * j) == payload_word(compressed, j),
{
    let w = payload_word(compressed, j);
    assert(frame[4 * j] == le_byte(w, 0));
    assert(frame[4 * j + 1] == le_byte(w, 1));
    assert(frame[4 * j + 2] == le_byte(w, 2));
    assert(frame[4 * j + 3] == le_byte(w, 3));
}

/// The byte at `i`, zero past the end.
pub open spec fn byte_or_zero(bytes: Seq<u8>, i: int) -> u8 {
    if i < bytes.len() {
        bytes[i]
    } else {
        0
    }
}

/// Packets that agree on the bytes within reach of the network, a missing byte
/// counting as zero, have the same vector.
pub proof fn vector_is_determined(v: Seq<Single>, w: Seq<Single>, a: Seq<u8>, b: Seq<u8>)
    requires
        is_packet_vector(v, a),
        is_packet_vector(w, b),
        forall|i: int|
            0 <= i < PACKET_VECTOR_SIZE ==> #[trigger] byte_or_zero(a, i) == byte_or_zero(b, i),
    ensures
        v == w,
{
    assert forall|i: int| 0 <= i < PACKET_VECTOR_SIZE implies v[i] == w[i] by {
        let x = byte_or_zero(a, i);
        assert(x == byte_or_zero(b, i));
        lemma_zero_fraction();
        if i >= a.len() {
            assert(v[i] == Single { bits: 0 });
        }
        if i >= b.len() {
            assert(w[i] == Single { bits: 0 });
        }
        nearest_is_unique(v[i], w[i], x as nat * pow2(149), 255);
    }
    assert(v =~= w);
}

/// One, as a single.
pub const ONE_BITS: u32 = 0x3f80_0000;

/// Every entry of a packet's vector lies between zero and one; a zero byte
/// gives exactly zero and a full byte exactly one.
pub proof fn vector_entries_are_fractions(v: Seq<Single>, bytes: Seq<u8>, i: int)
    requires
        is_packet_vector(v, bytes),
        0 <= i < PACKET_VECTOR_SIZE,
    ensures
        0 <= v[i].units() <= pow2(149),
        i < bytes.len() && bytes[i] == 0 ==> v[i].bits == 0,
        i < bytes.len() && bytes[i] == 255 ==> v[i].bits == ONE_BITS,
{
    let one = Single { bits: ONE_BITS };
    lemma_one();
    lemma_pow2_pos(149);
    lemma_zero_fraction();
    if i < bytes.len() {
        let b = bytes[i] as int;
        let n = bytes[i] as nat * pow2(149);
        let p = pow2(149) as int;
        assert(b * p <= 255 * p) by (nonlinear_arith)
            requires
                b <= 255,
                p > 0,
        ;
        assert(distance(v[i], n, 255) <= distance(one, n, 255));
        if b == 0 {
            nearest_is_unique(v[i], Single { bits: 0 }, n, 255);
        }
        if b == 255 {
            assert(distance(one, n, 255) == 0);
            assert forall|t: Single|
                t.finite() && t.units() != one.units() implies distance(one, n, 255)
                != #[trigger] distance(t, n, 255) by {}
            nearest_is_unique(v[i], one, n, 255);
        }
    } else {
        assert(magnitude(0) == 0);
    }
}

proof fn lemma_one()
    ensures
        ({
            let one = Single { bits: ONE_BITS };
            one.units() == pow2(149) && one.finite() && !one.negative()
        }),
{
    lemma2_to64();
    lemma_whole_number(Single { bits: ONE_BITS }, 1, 23);
}

} // verus!
