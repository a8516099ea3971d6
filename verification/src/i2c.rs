//! The matrix behind its I2C controller: what is written to which register.

use crate::frame::{
    byte_or_zero, bytes_to_f32_vector, is_packet_vector, le_byte, vector_is_determined, SplashStep,
};
use crate::network::{
    compress_is_deterministic, fits, passes, LayerShape, PacketCompressor, WeightPattern,
};
use crate::single::Single;
use crate::PACKET_VECTOR_SIZE;
use vstd::prelude::*;

verus! {

/// The bus address of the matrix controller.
pub const MATRIX_ADDRESS: u16 = 0x46;

/// The number of values that the network gives for one packet on this display.
pub const I2C_COMPRESSED_SIZE: usize = 48;

/// The size of the controller's picture: 64 pixels of three bytes.
pub const I2C_FRAME_BYTES: usize = 192;

/// The most bytes that go out in one block.
pub const BLOCK_BYTES: usize = 32;

/// How far apart the registers of consecutive blocks are.
pub const REGISTERS_PER_BLOCK: u8 = 6;

/// The most blocks that a register number can tell apart.
pub const MAX_BLOCKS: usize = 43;

/// One block write.
pub struct RegisterBlock {
    pub register: u8,
    pub data: Vec<u8>,
}

/// Where block `k` of `len` bytes ends.
pub open spec fn block_end(k: int, len: int) -> int {
    if BLOCK_BYTES * k + BLOCK_BYTES < len {
        BLOCK_BYTES * k + BLOCK_BYTES
    } else {
        len
    }
}

/// `blocks` are the block writes for `bytes`: full blocks and a last shorter
/// one, each to its own register.
pub open spec fn are_register_blocks(blocks: Seq<RegisterBlock>, bytes: Seq<u8>) -> bool {
    &&& blocks.len() == (bytes.len() + BLOCK_BYTES - 1) / BLOCK_BYTES as int
    &&& forall|k: int|
        0 <= k < blocks.len() ==> {
            &&& (#[trigger] blocks[k]).register == REGISTERS_PER_BLOCK * k
            &&& blocks[k].data@ == bytes.subrange(
                BLOCK_BYTES * k,
                block_end(k, bytes.len() as int),
            )
        }
}

/// Cuts a picture into block writes.
pub fn register_blocks(bytes: &[u8]) -> (blocks: Vec<RegisterBlock>)
    requires
        bytes@.len() <= BLOCK_BYTES * MAX_BLOCKS,
    ensures
        are_register_blocks(blocks@, bytes@),
{
    let mut blocks: Vec<RegisterBlock> = Vec::new();
    let mut at: usize = 0;
    let mut register: u8 = 0;
    let ghost mut done: int = 0;
    while at < bytes.len()
        invariant
            bytes@.len() <= BLOCK_BYTES * MAX_BLOCKS,
            blocks@.len() == done,
            at == if BLOCK_BYTES * done < bytes@.len() {
                BLOCK_BYTES * done
            } else {
                bytes@.len() as int
            },
            done > 0 ==> BLOCK_BYTES * (done - 1) < bytes@.len(),
            at < bytes@.len() ==> register == REGISTERS_PER_BLOCK * done,
            forall|k: int|
                0 <= k < done ==> {
                    &&& (#[trigger] blocks@[k]).register == REGISTERS_PER_BLOCK * k
                    &&& blocks@[k].data@ == bytes@.subrange(
                        BLOCK_BYTES * k,
                        block_end(k, bytes@.len() as int),
                    )
                },
        decreases bytes.len() - at,
    {
        let end: usize = if bytes.len() - at > BLOCK_BYTES {
            at + BLOCK_BYTES
        } else {
            bytes.len()
        };
        let mut data: Vec<u8> = Vec::with_capacity(BLOCK_BYTES);
        let mut i: usize = at;
        while i < end
            invariant
                at <= i <= end <= bytes@.len(),
                data@ == bytes@.subrange(at as int, i as int),
            decreases end - i,
        {
            data.push(bytes[i]);
            i = i + 1;
            assert(bytes@.subrange(at as int, i as int) =~= bytes@.subrange(
                at as int,
                i - 1,
            ).push(bytes@[i - 1]));
        }
        blocks.push(RegisterBlock { register, data });
        at = end;
        proof {
            done = done + 1;
        }
        if at < bytes.len() {
            register = register + REGISTERS_PER_BLOCK;
        }
    }
    blocks
}

/// The bytes of all values, four each, least significant first.
pub open spec fn are_payload_bytes(bytes: Seq<u8>, compressed: Seq<Single>) -> bool {
    &&& bytes.len() == 4 * compressed.len()
    &&& forall|i: int|
        0 <= i < bytes.len() ==> #[trigger] bytes[i] == le_byte(compressed[i / 4].bits, i % 4)
}

/// Lays the network's values out as a picture for the controller.
pub fn payload_bytes(compressed: &[Single]) -> (bytes: Vec<u8>)
    ensures
        are_payload_bytes(bytes@, compressed@),
{
    let mut bytes: Vec<u8> = Vec::new();
    let mut i: usize = 0;
    while i < compressed.len()
        invariant
            i <= compressed@.len(),
            bytes@.len() == 4 * i,
            forall|k: int|
                0 <= k < 4 * i ==> #[trigger] bytes@[k] == le_byte(compressed@[k / 4].bits, k % 4),
        decreases compressed.len() - i,
    {
        let word = compressed[i].bits;
        bytes.push((word % 0x100) as u8);
        bytes.push((word / 0x100 % 0x100) as u8);
        bytes.push((word / 0x1_0000 % 0x100) as u8);
        bytes.push((word / 0x100_0000) as u8);
        i = i + 1;
    }
    bytes
}

/// The network for this display: two hidden layers.
pub fn i2c_compressor(input_size: usize, compressed_size: usize) -> (c: PacketCompressor)
    ensures
        c.wf(),
        c.input_size() == input_size,
        c.compressed_size() == compressed_size,
        c.layers@ == seq![
            (LayerShape { rows: input_size, cols: 1024, pattern: WeightPattern::PlainWaveform }),
            (LayerShape { rows: 1024, cols: 512, pattern: WeightPattern::PlainWaveform }),
            (LayerShape { rows: 512, cols: compressed_size, pattern: WeightPattern::Parabolic }),
        ],
{
    let mut layers: Vec<LayerShape> = Vec::new();
    layers.push(
        LayerShape { rows: input_size, cols: 1024, pattern: WeightPattern::PlainWaveform },
    );
    layers.push(LayerShape { rows: 1024, cols: 512, pattern: WeightPattern::PlainWaveform });
    layers.push(
        LayerShape { rows: 512, cols: compressed_size, pattern: WeightPattern::Parabolic },
    );
    PacketCompressor { layers }
}

/// `blocks` are what a network shows of a packet on this display: the packet's
/// vector, taken through the layers, laid out as a picture and cut into blocks.
pub open spec fn shows_blocks<F: Fn(usize, Vec<Single>) -> Vec<Single>>(
    affine: F,
    layers: Seq<LayerShape>,
    packet: Seq<u8>,
    blocks: Seq<RegisterBlock>,
) -> bool {
    exists|input: Vec<Single>, out: Seq<Single>, bytes: Seq<u8>|
        {
            &&& is_packet_vector(input@, packet)
            &&& #[trigger] passes(affine, layers.len(), layers.len(), input, out)
            &&& #[trigger] are_payload_bytes(bytes, out)
            &&& are_register_blocks(blocks, bytes)
        }
}

/// What a packet shows on this display, as block writes.
pub fn packet_to_register_blocks<F: Fn(usize, Vec<Single>) -> Vec<Single>>(
    compressor: &PacketCompressor,
    affine: &F,
    packet: &[u8],
) -> (blocks: Vec<RegisterBlock>)
    requires
        compressor.wf(),
        fits(*affine, compressor.layers@),
        compressor.input_size() == PACKET_VECTOR_SIZE,
        4 * compressor.compressed_size() <= BLOCK_BYTES * MAX_BLOCKS,
    ensures
        shows_blocks(*affine, compressor.layers@, packet@, blocks@),
{
    let input = bytes_to_f32_vector(packet);
    let ghost v = input;
    let compressed = compressor.compress(affine, input);
    let bytes = payload_bytes(compressed.as_slice());
    let blocks = register_blocks(bytes.as_slice());
    assert(passes(*affine, compressor.layers@.len(), compressor.layers@.len(), v, compressed@));
    assert(are_payload_bytes(bytes@, compressed@));
    blocks
}

/// Packets that agree in the bytes that reach the network, where a byte that is
/// missing counts as zero, give the same block writes.
pub proof fn equal_packets_give_the_same_blocks<F: Fn(usize, Vec<Single>) -> Vec<Single>>(
    affine: F,
    layers: Seq<LayerShape>,
    p: Seq<u8>,
    q: Seq<u8>,
    f: Seq<RegisterBlock>,
    g: Seq<RegisterBlock>,
)
    requires
        fits(affine, layers),
        forall|i: int|
            0 <= i < PACKET_VECTOR_SIZE ==> #[trigger] byte_or_zero(p, i) == byte_or_zero(q, i),
        shows_blocks(affine, layers, p, f),
        shows_blocks(affine, layers, q, g),
    ensures
        f.len() == g.len(),
        forall|k: int|
            #![trigger f[k]]
            #![trigger g[k]]
            0 <= k < f.len() ==> f[k].register == g[k].register && f[k].data@ == g[k].data@,
{
    let n = layers.len();
    let (a, x, s) = choose|input: Vec<Single>, out: Seq<Single>, bytes: Seq<u8>|
        is_packet_vector(input@, p) && #[trigger] passes(affine, n, n, input, out)
            && #[trigger] are_payload_bytes(bytes, out) && are_register_blocks(f, bytes);
    let (b, y, t) = choose|input: Vec<Single>, out: Seq<Single>, bytes: Seq<u8>|
        is_packet_vector(input@, q) && #[trigger] passes(affine, n, n, input, out)
            && #[trigger] are_payload_bytes(bytes, out) && are_register_blocks(g, bytes);
    vector_is_determined(a@, b@, p, q);
    compress_is_deterministic(affine, layers, a, b, x, y);
    assert(s =~= t);
}

/// A picture of 64 pixels with the same three bytes each.
pub open spec fn is_wash(frame: Seq<u8>, red: u8, green: u8, blue: u8) -> bool {
    &&& frame.len() == I2C_FRAME_BYTES
    &&& forall|i: int|
        0 <= i < I2C_FRAME_BYTES ==> #[trigger] frame[i] == if i % 3 == 0 {
            red
        } else if i % 3 == 1 {
            green
        } else {
            blue
        }
}

/// The whole matrix in one colour.
pub fn wash(red: u8, green: u8, blue: u8) -> (frame: Vec<u8>)
    ensures
        is_wash(frame@, red, green, blue),
{
    let mut frame: Vec<u8> = Vec::with_capacity(I2C_FRAME_BYTES);
    let mut i: usize = 0;
    while i < 64
        invariant
            i <= 64,
            frame@.len() == 3 * i,
            forall|k: int|
                0 <= k < 3 * i ==> #[trigger] frame@[k] == if k % 3 == 0 {
                    red
                } else if k % 3 == 1 {
                    green
                } else {
                    blue
                },
        decreases 64 - i,
    {
        frame.push(red);
        frame.push(green);
        frame.push(blue);
        i = i + 1;
    }
    frame
}

/// The first row of the test card, three bytes per pixel.
pub open spec fn test_card() -> Seq<u8> {
    seq![
        255,
        255,
        0,
        255,
        0,
        0,
        255,
        255,
        0,
        255,
        0,
        255,
        255,
        255,
        0,
        255,
        0,
        0,
        255,
        255,
        0,
        255,
        0,
        255,
    ]
}

/// The power-on sequence of this display: dark, the test card for eight
/// seconds, red for five seconds, dark.
pub fn i2c_splash() -> (steps: Vec<SplashStep>)
    ensures
        steps@.len() == 4,
        is_wash(steps@[0].frame@, 0, 0, 0) && steps@[0].hold_secs == 0,
        steps@[1].frame@ == test_card() && steps@[1].hold_secs == 8,
        is_wash(steps@[2].frame@, 255, 0, 0) && steps@[2].hold_secs == 5,
        is_wash(steps@[3].frame@, 0, 0, 0) && steps@[3].hold_secs == 0,
{
    let mut steps: Vec<SplashStep> = Vec::new();
    steps.push(SplashStep { frame: wash(0, 0, 0), hold_secs: 0 });
    let card: Vec<u8> = vec![
        255, 255, 0, 255, 0, 0, 255, 255, 0, 255, 0, 255, 255, 255, 0, 255, 0, 0, 255, 255, 0, 255,
        0, 255,
    ];
    assert(card@ =~= test_card());
    steps.push(SplashStep { frame: card, hold_secs: 8 });
    steps.push(SplashStep { frame: wash(255, 0, 0), hold_secs: 5 });
    steps.push(SplashStep { frame: wash(0, 0, 0), hold_secs: 0 });
    steps
}

/// The blocks of a picture hold its bytes in order, without gap or overlap.
pub proof fn blocks_cover_picture(blocks: Seq<RegisterBlock>, bytes: Seq<u8>, i: int)
    requires
        are_register_blocks(blocks, bytes),
        0 <= i < bytes.len(),
    ensures
        (i / BLOCK_BYTES as int) < blocks.len(),
        (i % BLOCK_BYTES as int) < blocks[i / BLOCK_BYTES as int].data@.len(),
        blocks[i / BLOCK_BYTES as int].data@[i % BLOCK_BYTES as int] == bytes[i],
{
    let k = i / BLOCK_BYTES as int;
    assert(blocks[k].data@ == bytes.subrange(BLOCK_BYTES * k, block_end(k, bytes.len() as int)));
}

} // verus!
