//! Pictures on the matrix behind its I2C controller.

use crate::frame::{is_packet_vector, SplashStep};
use crate::i2c::{
    are_payload_bytes, are_register_blocks, block_end, i2c_compressor, i2c_splash,
    packet_to_register_blocks, payload_bytes, register_blocks, wash, RegisterBlock, BLOCK_BYTES,
    I2C_COMPRESSED_SIZE, I2C_FRAME_BYTES, MATRIX_ADDRESS,
};
use crate::laws::display::{is_scaled, is_trace, lemma_scaled, lemma_trace, lemma_word, word_at};
use crate::network::{passes, PacketCompressor, WeightPattern};
use crate::single::Single;
use vstd::prelude::*;

verus! {

/// All the bytes of the block writes, one after another.
pub open spec fn written(blocks: Seq<RegisterBlock>) -> Seq<u8>
    decreases blocks.len(),
{
    if blocks.len() == 0 {
        seq![]
    } else {
        written(blocks.drop_last()) + blocks.last().data@
    }
}

proof fn lemma_written(blocks: Seq<RegisterBlock>, bytes: Seq<u8>, n: nat)
    requires
        are_register_blocks(blocks, bytes),
        n <= blocks.len(),
    ensures
        written(blocks.take(n as int)) == bytes.take(
            if 32 * n < bytes.len() {
                32 * n as int
            } else {
                bytes.len() as int
            },
        ),
    decreases n,
{
    if n == 0 {
        assert(bytes.take(0) =~= Seq::<u8>::empty());
    } else {
        let k = n - 1;
        lemma_written(blocks, bytes, k as nat);
        assert(blocks.take(n as int).drop_last() =~= blocks.take(k));
        assert(blocks.take(n as int).last() == blocks[k]);
        assert(blocks[k].data@ == bytes.subrange(32 * k, block_end(k, bytes.len() as int)));
        assert(32 * k < bytes.len());
        assert(written(blocks.take(n as int)) =~= bytes.take(
            if 32 * n < bytes.len() {
                32 * n as int
            } else {
                bytes.len() as int
            },
        ));
    }
}

/// `blocks` write `bytes` in order and without gap or overlap: in blocks of 32
/// bytes, of which only the last may be shorter and none is empty, to every
/// sixth register from zero on.
pub open spec fn write_out(blocks: Seq<RegisterBlock>, bytes: Seq<u8>) -> bool {
    &&& written(blocks) == bytes
    &&& forall|k: int|
        0 <= k < blocks.len() ==> {
            &&& (#[trigger] blocks[k]).register == 6 * k
            &&& 0 < blocks[k].data@.len() <= 32
            &&& k < blocks.len() - 1 ==> blocks[k].data@.len() == 32
        }
}

proof fn lemma_write_out(blocks: Seq<RegisterBlock>, bytes: Seq<u8>)
    requires
        are_register_blocks(blocks, bytes),
    ensures
        write_out(blocks, bytes),
{
    lemma_written(blocks, bytes, blocks.len());
    assert(blocks.take(blocks.len() as int) =~= blocks);
    assert(bytes.take(bytes.len() as int) =~= bytes);
}

/// A picture is written out whole.
pub proof fn picture_is_written_out(bytes: &[u8], blocks: Vec<RegisterBlock>)
    requires
        call_ensures(register_blocks, (bytes,), blocks),
    ensures
        write_out(blocks@, bytes@),
{
    lemma_write_out(blocks@, bytes@);
}

/// `bytes` holds the bits of each value as a word, and nothing else.
pub open spec fn holds_all_values(bytes: Seq<u8>, values: Seq<Single>) -> bool {
    &&& bytes.len() == 4 * values.len()
    &&& forall|j: int|
        #![trigger word_at(bytes, 4 * j)]
        0 <= j < values.len() ==> word_at(bytes, 4 * j) == values[j].bits
}

proof fn lemma_holds_all_values(bytes: Seq<u8>, values: Seq<Single>)
    requires
        are_payload_bytes(bytes, values),
    ensures
        holds_all_values(bytes, values),
{
    assert forall|j: int| #![trigger word_at(bytes, 4 * j)] 0 <= j < values.len() implies word_at(
        bytes,
        4 * j,
    ) == values[j].bits by {
        lemma_word(values[j].bits);
        assert(4 * j / 4 == j && (4 * j + 1) / 4 == j && (4 * j + 2) / 4 == j && (4 * j + 3) / 4
            == j);
        let b = bytes[4 * j];
        let c = bytes[4 * j + 1];
        let d = bytes[4 * j + 2];
        let e = bytes[4 * j + 3];
    }
}

/// A picture holds the values that it was made from.
pub proof fn picture_holds_its_values(values: &[Single], bytes: Vec<u8>)
    requires
        call_ensures(payload_bytes, (values,), bytes),
    ensures
        holds_all_values(bytes@, values@),
{
    lemma_holds_all_values(bytes@, values@);
}

/// The block writes of a packet hold all the values that the network gives for
/// the packet's scaled bytes.
pub proof fn packet_blocks_are_the_networks<F: Fn(usize, Vec<Single>) -> Vec<Single>>(
    compressor: &PacketCompressor,
    affine: &F,
    packet: &[u8],
    blocks: Vec<RegisterBlock>,
)
    requires
        call_ensures(packet_to_register_blocks::<F>, (compressor, affine, packet), blocks),
        0 < compressor.layers@.len() <= usize::MAX,
    ensures
        exists|
            input: Seq<Single>,
            given: Seq<Vec<Single>>,
            gave: Seq<Vec<Single>>,
            out: Seq<Single>,
        |
            {
                &&& is_scaled(input, packet@)
                &&& #[trigger] is_trace(
                    *affine,
                    compressor.layers@.len(),
                    input,
                    given,
                    gave,
                    out,
                )
                &&& holds_all_values(written(blocks@), out)
            },
        write_out(blocks@, written(blocks@)),
{
    let n = compressor.layers@.len();
    let (v, out, bytes) = choose|v: Vec<Single>, out: Seq<Single>, bytes: Seq<u8>|
        is_packet_vector(v@, packet@) && #[trigger] passes(*affine, n, n, v, out)
            && #[trigger] are_payload_bytes(bytes, out) && are_register_blocks(blocks@, bytes);
    lemma_scaled(v@, packet@);
    lemma_holds_all_values(bytes, out);
    lemma_write_out(blocks@, bytes);
    let (given, gave) = lemma_trace(*affine, n, n, v, out);
    assert(is_trace(*affine, n, v@, given, gave, out));
}

/// The network of this display takes and gives what it was asked for, through
/// two hidden layers.
pub proof fn i2c_network_has_two_hidden_layers(
    input_size: usize,
    compressed_size: usize,
    c: PacketCompressor,
)
    requires
        call_ensures(i2c_compressor, (input_size, compressed_size), c),
    ensures
        c.layers@.len() == 3,
        c.layers@[0].rows == input_size,
        c.layers@[2].cols == compressed_size,
        c.layers@[0].cols == 1024 && c.layers@[1].rows == 1024,
        c.layers@[1].cols == 512 && c.layers@[2].rows == 512,
        c.layers@[0].pattern == WeightPattern::PlainWaveform,
        c.layers@[1].pattern == WeightPattern::PlainWaveform,
        c.layers@[2].pattern == WeightPattern::Parabolic,
{
}

/// The controller has its place on the bus, and its picture takes the 48 values
/// of one packet, in six blocks.
pub proof fn picture_takes_six_blocks()
    ensures
        MATRIX_ADDRESS == 0x46,
        I2C_COMPRESSED_SIZE == 48,
        I2C_FRAME_BYTES == 4 * I2C_COMPRESSED_SIZE,
        I2C_FRAME_BYTES == 6 * BLOCK_BYTES,
{
}

/// A wash gives each of the 64 pixels the same colour.
pub proof fn wash_has_one_colour(red: u8, green: u8, blue: u8, frame: Vec<u8>)
    requires
        call_ensures(wash, (red, green, blue), frame),
    ensures
        frame@.len() == 192,
        forall|i: int|
            0 <= i < 64 ==> #[trigger] frame@[3 * i] == red && frame@[3 * i + 1] == green
                && frame@[3 * i + 2] == blue,
{
    assert forall|i: int| 0 <= i < 64 implies #[trigger] frame@[3 * i] == red && frame@[3 * i + 1]
        == green && frame@[3 * i + 2] == blue by {
        let a = frame@[3 * i + 1];
        let b = frame@[3 * i + 2];
    }
}

/// The power-on sequence of this display takes thirteen seconds: dark, eight
/// pixels of test colours for eight, a red matrix for five, dark.
pub proof fn i2c_splash_is_a_card_then_red(steps: Vec<SplashStep>)
    requires
        call_ensures(i2c_splash, (), steps),
    ensures
        steps@.len() == 4,
        steps@[0].hold_secs == 0 && steps@[1].hold_secs == 8,
        steps@[2].hold_secs == 5 && steps@[3].hold_secs == 0,
        steps@[0].frame@.len() == 192 && steps@[2].frame@.len() == 192,
        steps@[3].frame@.len() == 192 && steps@[1].frame@.len() == 24,
        forall|i: int|
            0 <= i < 192 ==> {
                &&& #[trigger] steps@[2].frame@[i] == (if i % 3 == 0 {
                    255u8
                } else {
                    0
                })
                &&& steps@[0].frame@[i] == 0
                &&& steps@[3].frame@[i] == 0
            },
        forall|i: int|
            0 <= i < 24 ==> #[trigger] steps@[1].frame@[i] == (if i % 12 == 2 || i % 12 == 4 || i
                % 12 == 5 || i % 12 == 8 || i % 12 == 10 {
                0u8
            } else {
                255
            }),
{
    assert forall|i: int| 0 <= i < 192 implies {
        &&& #[trigger] steps@[2].frame@[i] == (if i % 3 == 0 {
            255u8
        } else {
            0
        })
        &&& steps@[0].frame@[i] == 0
        &&& steps@[3].frame@[i] == 0
    } by {
        let a = steps@[0].frame@[i];
        let b = steps@[3].frame@[i];
    }
}

} // verus!
