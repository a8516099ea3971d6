//! Packets, the network and the pictures on the matrix.

use crate::frame::{
    byte_fraction, bytes_to_f32_vector, clear_frame, compressed_payload_to_frame_bytes,
    is_byte_fraction, is_packet_vector, is_payload_frame, le_byte, pulse_frame,
    reset_capture_buffer, startup_splash, vector_entries_are_fractions, SplashStep,
};
use crate::laws::numbers::absolute;
use crate::network::{
    packet_to_frame_bytes, passes, rectified, PacketCompressor, WeightPattern,
};
use crate::rounding::{distance, nearest};
use crate::single::{magnitude, numbers_are_ordered_by_their_bits, Single};
use vstd::arithmetic::power2::pow2;
use vstd::prelude::*;

verus! {

/// `s` is the finite number nearest to `n / d` units and not negative, with an
/// even last bit where another is as near.
pub open spec fn is_closest(s: Single, n: int, d: int) -> bool {
    &&& s.bits < 0x7f80_0000
    &&& forall|t: Single|
        t.bits % 0x8000_0000 < 0x7f80_0000 ==> {
            let gap = absolute(d * s.units() - n);
            let other = absolute(d * #[trigger] t.units() - n);
            &&& gap <= other
            &&& gap == other && t.units() != s.units() ==> s.bits % 2 == 0
        }
}

/// What was rounded to the nearest is the closest.
pub proof fn lemma_closest(s: Single, n: nat, d: nat)
    requires
        nearest(s, n, d),
    ensures
        is_closest(s, n as int, d as int),
{
    assert forall|t: Single| t.bits % 0x8000_0000 < 0x7f80_0000 implies {
        let gap = absolute(d * s.units() - n);
        let other = absolute(d * #[trigger] t.units() - n);
        &&& gap <= other
        &&& gap == other && t.units() != s.units() ==> s.bits % 2 == 0
    } by {
        assert(t.finite());
        assert(distance(s, n, d) <= distance(t, n, d));
        assert(d * s.units() == s.units() * d) by (nonlinear_arith);
        assert(d * t.units() == t.units() * d) by (nonlinear_arith);
    }
}

/// A byte becomes the number nearest to its 255th part.
pub proof fn bytes_become_255ths(byte: u8, s: Single)
    requires
        call_ensures(byte_fraction, (byte,), s),
    ensures
        is_closest(s, byte * pow2(149), 255),
{
    lemma_closest(s, byte as nat * pow2(149), 255);
}

/// `v` holds 1518 numbers: the 255th part of each byte that is there, as near as
/// a number can be, and zero from the last byte on.
pub open spec fn is_scaled(v: Seq<Single>, bytes: Seq<u8>) -> bool {
    &&& v.len() == 1518
    &&& forall|i: int|
        0 <= i < 1518 ==> if i < bytes.len() {
            is_closest(#[trigger] v[i], bytes[i] * pow2(149), 255)
        } else {
            v[i].bits == 0
        }
}

/// A packet's vector holds its first 1518 bytes, scaled to the range from zero
/// to one, which the bytes 0 and 255 reach, and zeros for the bytes that are
/// missing.
pub proof fn packet_bytes_are_scaled(bytes: &[u8], v: Vec<Single>)
    requires
        call_ensures(bytes_to_f32_vector, (bytes,), v),
    ensures
        is_scaled(v@, bytes@),
        forall|i: int|
            0 <= i < 1518 && i < bytes@.len() && bytes@[i] == 0 ==> (#[trigger] v@[i]).bits == 0,
        forall|i: int|
            0 <= i < 1518 && i < bytes@.len() && bytes@[i] == 255 ==> (#[trigger] v@[i]).bits
                == 0x3f80_0000,
        forall|i: int| 0 <= i < 1518 ==> 0 <= (#[trigger] v@[i]).units() <= pow2(149),
{
    lemma_scaled(v@, bytes@);
    assert forall|i: int| 0 <= i < 1518 implies 0 <= (#[trigger] v@[i]).units() <= pow2(149) && (i
        < bytes@.len() && bytes@[i] == 0 ==> v@[i].bits == 0) && (i < bytes@.len() && bytes@[i]
        == 255 ==> v@[i].bits == 0x3f80_0000) by {
        vector_entries_are_fractions(v@, bytes@, i);
    }
}

/// A number between the layers is the greater of itself and zero: a positive one
/// of any size, infinity included, keeps its bits, and all others, NaNs
/// included, become zero.
pub proof fn rectified_is_the_greater_of_itself_and_zero(s: Single)
    ensures
        rectified(s).bits == if 0 < s.bits <= 0x7f80_0000 {
            s.bits
        } else {
            0
        },
        s.bits % 0x8000_0000 <= 0x7f80_0000 ==> rectified(s).units() == if s.units() > 0 {
            s.units()
        } else {
            0
        },
{
    numbers_are_ordered_by_their_bits(Single { bits: 0 }, s);
    assert(magnitude(0) == 0);
}

/// Rectifying keeps the order of numbers, does nothing a second time, and never
/// gives less than it was given.
pub proof fn rectifying_keeps_the_order(a: Single, b: Single)
    ensures
        rectified(rectified(a)) == rectified(a),
        !a.nan() ==> rectified(a).at_least(a),
        a.at_least(b) ==> rectified(a).at_least(rectified(b)),
        !rectified(a).nan(),
        rectified(a).units() >= 0,
{
    rectified_is_the_greater_of_itself_and_zero(a);
    rectified_is_the_greater_of_itself_and_zero(b);
    rectified_is_the_greater_of_itself_and_zero(rectified(a));
    assert(magnitude(0) == 0);
}

/// How `out` came about from `input` in `n` layers: layer `k` was given
/// `given[k]` and gave `gave[k]`. The first was given the input; each later one
/// was given what the one before it gave, with every number that is not above
/// zero replaced by zero; and `out` is what the last one gave, as it gave it.
pub open spec fn is_trace<F: Fn(usize, Vec<Single>) -> Vec<Single>>(
    affine: F,
    n: nat,
    input: Seq<Single>,
    given: Seq<Vec<Single>>,
    gave: Seq<Vec<Single>>,
    out: Seq<Single>,
) -> bool {
    &&& n > 0
    &&& given.len() == n
    &&& gave.len() == n
    &&& given[0]@ == input
    &&& out == gave[n - 1]@
    &&& forall|k: int|
        #![trigger given[k]]
        #![trigger gave[k]]
        0 <= k < n ==> affine.ensures((k as usize, given[k]), gave[k])
    &&& forall|k: int|
        0 < k < n ==> (#[trigger] given[k])@.len() == gave[k - 1]@.len()
    &&& forall|k: int, j: int|
        #![trigger given[k]@[j]]
        0 < k < n && 0 <= j < given[k]@.len() ==> given[k]@[j].bits == if 0 < gave[k - 1]@[j].bits
            <= 0x7f80_0000 {
            gave[k - 1]@[j].bits
        } else {
            0
        }
}

pub(crate) proof fn lemma_trace<F: Fn(usize, Vec<Single>) -> Vec<Single>>(
    affine: F,
    total: nat,
    n: nat,
    input: Vec<Single>,
    out: Seq<Single>,
) -> (trace: (Seq<Vec<Single>>, Seq<Vec<Single>>))
    requires
        0 < n <= total <= usize::MAX,
        passes(affine, total, n, input, out),
    ensures
        is_trace(affine, n, input@, trace.0, trace.1, trace.1[n - 1]@),
        n == total ==> out == trace.1[n - 1]@,
        n < total ==> out == trace.1[n - 1]@.map_values(|s: Single| rectified(s)),
    decreases n,
{
    let i = (n - 1) as usize;
    let (mid, raw) = choose|mid: Vec<Single>, raw: Vec<Single>|
        #![trigger affine.ensures((i, mid), raw)]
        {
            &&& passes(affine, total, (n - 1) as nat, input, mid@)
            &&& affine.ensures((i, mid), raw)
            &&& out == if n < total {
                raw@.map_values(|s: Single| rectified(s))
            } else {
                raw@
            }
        };
    if n == 1 {
        (seq![mid], seq![raw])
    } else {
        let (given, gave) = lemma_trace(affine, total, (n - 1) as nat, input, mid@);
        let (given2, gave2) = (given.push(mid), gave.push(raw));
        assert forall|k: int|
            #![trigger given2[k]]
            #![trigger gave2[k]]
            0 <= k < n implies affine.ensures((k as usize, given2[k]), gave2[k]) by {
            if k < n - 1 {
                assert(given2[k] == given[k] && gave2[k] == gave[k]);
            }
        }
        assert forall|k: int| 0 < k < n implies (#[trigger] given2[k])@.len() == gave2[k
            - 1]@.len() by {
            assert(gave2[k - 1] == gave[k - 1]);
            if k < n - 1 {
                assert(given2[k] == given[k]);
            }
        }
        assert forall|k: int, j: int|
            #![trigger given2[k]@[j]]
            0 < k < n && 0 <= j < given2[k]@.len() implies given2[k]@[j].bits == if 0 < gave2[k
            - 1]@[j].bits <= 0x7f80_0000 {
            gave2[k - 1]@[j].bits
        } else {
            0
        } by {
            assert(gave2[k - 1] == gave[k - 1]);
            if k < n - 1 {
                assert(given2[k] == given[k]);
                assert(given[k]@[j].bits == given2[k]@[j].bits);
            } else {
                rectified_is_the_greater_of_itself_and_zero(gave[k - 1]@[j]);
            }
        }
        (given2, gave2)
    }
}

/// The network passes its input through all of its layers in their order, with
/// zero for what is not above zero between two layers, and nowhere else.
pub proof fn network_goes_through_its_layers<F: Fn(usize, Vec<Single>) -> Vec<Single>>(
    compressor: &PacketCompressor,
    affine: &F,
    input: Vec<Single>,
    out: Vec<Single>,
)
    requires
        call_ensures(PacketCompressor::compress::<F>, (compressor, affine, input), out),
        0 < compressor.layers@.len() <= usize::MAX,
    ensures
        exists|given: Seq<Vec<Single>>, gave: Seq<Vec<Single>>| #[trigger]
            is_trace(*affine, compressor.layers@.len(), input@, given, gave, out@),
{
    let n = compressor.layers@.len();
    let (given, gave) = lemma_trace(*affine, n, n, input, out@);
    assert(is_trace(*affine, n, input@, given, gave, out@));
}

/// The word that four bytes from `at` on hold, the lowest byte first.
pub open spec fn word_at(bytes: Seq<u8>, at: int) -> int {
    bytes[at] + 256 * bytes[at + 1] + 65_536 * bytes[at + 2] + 16_777_216 * bytes[at + 3]
}

/// `frame` is 128 bytes that hold 32 words: the bits of the values, cut off after
/// the 32nd, and zeros where there are fewer.
pub open spec fn holds_values(frame: Seq<u8>, values: Seq<Single>) -> bool {
    &&& frame.len() == 128
    &&& forall|j: int|
        #![trigger word_at(frame, 4 * j)]
        0 <= j < 32 ==> word_at(frame, 4 * j) == if j < values.len() {
            values[j].bits as int
        } else {
            0
        }
}

pub(crate) proof fn lemma_word(word: u32)
    ensures
        le_byte(word, 0) + 256 * le_byte(word, 1) + 65_536 * le_byte(word, 2) + 16_777_216
            * le_byte(word, 3) == word,
{
}

proof fn lemma_holds_values(frame: Seq<u8>, values: Seq<Single>)
    requires
        is_payload_frame(frame, values),
    ensures
        holds_values(frame, values),
{
    assert forall|j: int| #![trigger word_at(frame, 4 * j)] 0 <= j < 32 implies word_at(
        frame,
        4 * j,
    ) == if j < values.len() {
        values[j].bits as int
    } else {
        0
    } by {
        lemma_word(if j < values.len() {
            values[j].bits
        } else {
            0
        });
        assert(4 * j / 4 == j && (4 * j + 1) / 4 == j && (4 * j + 2) / 4 == j && (4 * j + 3) / 4
            == j);
        let b = frame[4 * j];
        let c = frame[4 * j + 1];
        let d = frame[4 * j + 2];
        let e = frame[4 * j + 3];
    }
}

/// A frame holds the values that it was made from.
pub proof fn frame_holds_its_values(values: &[Single], frame: [u8; 128])
    requires
        call_ensures(compressed_payload_to_frame_bytes, (values,), frame),
    ensures
        holds_values(frame@, values@),
{
    lemma_holds_values(frame@, values@);
}

/// A packet's frame holds the first 32 values that the network gives for the
/// packet's scaled bytes.
pub proof fn packet_frame_is_the_networks<F: Fn(usize, Vec<Single>) -> Vec<Single>>(
    compressor: &PacketCompressor,
    affine: &F,
    packet: &[u8],
    frame: [u8; 128],
)
    requires
        call_ensures(packet_to_frame_bytes::<F>, (compressor, affine, packet), frame),
        0 < compressor.layers@.len() <= usize::MAX,
    ensures
        exists|
            input: Seq<Single>,
            given: Seq<Vec<Single>>,
            gave: Seq<Vec<Single>>,
            out: Seq<Single>,
        |
            {
                &&& is_scaled(input, packet@)
                &&& #[trigger] is_trace(
                    *affine,
                    compressor.layers@.len(),
                    input,
                    given,
                    gave,
                    out,
                )
                &&& holds_values(frame@, out)
            },
{
    let n = compressor.layers@.len();
    let (v, out) = choose|v: Vec<Single>, out: Seq<Single>|
        is_packet_vector(v@, packet@) && #[trigger] passes(*affine, n, n, v, out)
            && is_payload_frame(frame@, out);
    lemma_scaled(v@, packet@);
    lemma_holds_values(frame@, out);
    let (given, gave) = lemma_trace(*affine, n, n, v, out);
    assert(is_trace(*affine, n, v@, given, gave, out));
}

pub(crate) proof fn lemma_scaled(v: Seq<Single>, bytes: Seq<u8>)
    requires
        is_packet_vector(v, bytes),
    ensures
        is_scaled(v, bytes),
{
    assert forall|i: int| 0 <= i < 1518 implies if i < bytes.len() {
        is_closest(#[trigger] v[i], bytes[i] * pow2(149), 255)
    } else {
        v[i].bits == 0
    } by {
        if i < bytes.len() {
            assert(is_byte_fraction(v[i], bytes[i]));
            lemma_closest(v[i], bytes[i] as nat * pow2(149), 255);
        }
    }
}

/// The framebuffer's network takes and gives what it was asked for, through
/// three hidden layers of 96, 72 and 48 numbers, and its layers' patterns
/// alternate. Its weights take 630,528 bytes on full packets.
pub proof fn framebuffer_network_is_narrow(
    input_size: usize,
    compressed_size: usize,
    c: PacketCompressor,
)
    requires
        call_ensures(PacketCompressor::new, (input_size, compressed_size), c),
    ensures
        c.layers@.len() == 4,
        c.layers@[0].rows == input_size,
        c.layers@[3].cols == compressed_size,
        c.layers@[0].cols == 96 && c.layers@[1].rows == 96,
        c.layers@[1].cols == 72 && c.layers@[2].rows == 72,
        c.layers@[2].cols == 48 && c.layers@[3].rows == 48,
        c.layers@[0].pattern == WeightPattern::Waveform,
        c.layers@[1].pattern == WeightPattern::Parabolic,
        c.layers@[2].pattern == WeightPattern::Waveform,
        c.layers@[3].pattern == WeightPattern::Parabolic,
        input_size == 1518 && compressed_size == 32 ==> 4 * (c.layers@[0].rows * c.layers@[0].cols
            + c.layers@[1].rows * c.layers@[1].cols + c.layers@[2].rows * c.layers@[2].cols
            + c.layers@[3].rows * c.layers@[3].cols) == 630_528,
{
}

/// A pulse lights all 64 pixels alike: yellow while warning, red once critical,
/// and not at all in any other state.
pub proof fn pulse_has_one_colour(state: u8, frame: Vec<u8>, dark: Vec<u8>)
    requires
        call_ensures(pulse_frame, (state,), frame),
        call_ensures(clear_frame, (), dark),
    ensures
        frame@.len() == 128 && dark@.len() == 128,
        forall|i: int|
            0 <= i < 64 ==> {
                let pixel = (#[trigger] frame@[2 * i], frame@[2 * i + 1]);
                if state == 1 {
                    pixel == (0xFFu8, 0xF0u8)
                } else if state == 2 {
                    pixel == (0xFFu8, 0u8)
                } else {
                    pixel == (0u8, 0u8)
                }
            },
        forall|i: int| 0 <= i < 128 ==> #[trigger] dark@[i] == 0,
        state != 1 && state != 2 ==> frame@ == dark@,
{
    assert forall|i: int| 0 <= i < 64 implies {
        let pixel = (#[trigger] frame@[2 * i], frame@[2 * i + 1]);
        if state == 1 {
            pixel == (0xFFu8, 0xF0u8)
        } else if state == 2 {
            pixel == (0xFFu8, 0u8)
        } else {
            pixel == (0u8, 0u8)
        }
    } by {
        let odd = frame@[2 * i + 1];
    }
    if state != 1 && state != 2 {
        assert(frame@ =~= dark@);
    }
}

/// The power-on sequence takes six seconds: eight blue pixels for three, a red
/// matrix for three, and dark after each.
pub proof fn splash_is_blue_then_red(steps: Vec<SplashStep>)
    requires
        call_ensures(startup_splash, (), steps),
    ensures
        steps@.len() == 4,
        steps@[0].hold_secs == 3 && steps@[1].hold_secs == 0,
        steps@[2].hold_secs == 3 && steps@[3].hold_secs == 0,
        forall|k: int| 0 <= k < 4 ==> (#[trigger] steps@[k]).frame@.len() == 128,
        forall|i: int|
            0 <= i < 128 ==> {
                &&& #[trigger] steps@[0].frame@[i] == (if i < 16 && i % 2 == 1 {
                    0x0Fu8
                } else {
                    0
                })
                &&& steps@[1].frame@[i] == 0
                &&& steps@[2].frame@[i] == (if i % 2 == 0 {
                    0xFFu8
                } else {
                    0
                })
                &&& steps@[3].frame@[i] == 0
            },
{
    assert forall|i: int| 0 <= i < 128 implies {
        &&& #[trigger] steps@[0].frame@[i] == (if i < 16 && i % 2 == 1 {
            0x0Fu8
        } else {
            0
        })
        &&& steps@[1].frame@[i] == 0
        &&& steps@[2].frame@[i] == (if i % 2 == 0 {
            0xFFu8
        } else {
            0
        })
        &&& steps@[3].frame@[i] == 0
    } by {
        let a = steps@[1].frame@[i];
        let b = steps@[2].frame@[i];
        let c = steps@[3].frame@[i];
    }
}

/// A capture buffer holds nothing of the last packet.
pub proof fn reused_buffer_is_blank(raw: Vec<u8>, buf: Vec<u8>)
    requires
        call_ensures(reset_capture_buffer, (raw,), buf),
    ensures
        buf@.len() == 1518,
        forall|i: int| 0 <= i < 1518 ==> #[trigger] buf@[i] == 0,
{
}

} // verus!
