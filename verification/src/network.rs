//! The packet network: which layers it has, and how they follow each other.
//!
//! The arithmetic of one layer, a product with its weights and a sum with its
//! biases, is the caller's; it comes in as a function. The shapes of the
//! layers, what runs between them and what goes in and out stand here.

use crate::frame::{
    byte_or_zero, bytes_to_f32_vector, compressed_payload_to_frame_bytes, is_packet_vector,
    is_payload_frame, vector_is_determined,
};
use crate::single::Single;
use crate::{COMPRESSED_PACKET_SIZE, FRAMEBUFFER_SIZE_BYTES, PACKET_VECTOR_SIZE};
use vstd::prelude::*;

verus! {

/// How the weights of a layer are generated.
#[derive(Clone, Copy, Debug, PartialEq, Eq, Structural)]
pub enum WeightPattern {
    /// A sine across the rows times a cosine across the columns, with an offset.
    Waveform,
    /// The same product without the offset.
    PlainWaveform,
    /// A paraboloid with its least value in the middle.
    Parabolic,
}

/// The shape of one layer: `rows` inputs, `cols` outputs.
#[derive(Clone, Copy, Debug, PartialEq, Eq, Structural)]
pub struct LayerShape {
    pub rows: usize,
    pub cols: usize,
    pub pattern: WeightPattern,
}

/// The layers of a packet network, from the input on.
pub struct PacketCompressor {
    pub layers: Vec<LayerShape>,
}

/// Each layer takes as many values as the one before it gives.
pub open spec fn chained(layers: Seq<LayerShape>) -> bool {
    &&& layers.len() > 0
    &&& forall|i: int| 0 < i < layers.len() ==> #[trigger] layers[i].rows == layers[i - 1].cols
}

/// The number of weights in the layers: one for each input and output of each.
pub open spec fn weight_count(layers: Seq<LayerShape>) -> nat
    decreases layers.len(),
{
    if layers.len() == 0 {
        0
    } else {
        weight_count(layers.drop_last()) + layers.last().rows as nat * layers.last().cols as nat
    }
}

/// The size of the weights in bytes: each is a single.
pub open spec fn weight_bytes(layers: Seq<LayerShape>) -> nat {
    4 * weight_count(layers)
}

/// Negative values and NaNs become zero; the others stay.
pub open spec fn rectified(s: Single) -> Single {
    if !s.nan() && s.units() > 0 {
        s
    } else {
        Single { bits: 0 }
    }
}

/// `out` is what the first `n` layers make of `input`: each applies `affine`,
/// and all but the last layer of the network rectify what it gave.
pub open spec fn passes<F: Fn(usize, Vec<Single>) -> Vec<Single>>(
    affine: F,
    total: nat,
    n: nat,
    input: Vec<Single>,
    out: Seq<Single>,
) -> bool
    decreases n,
{
    if n == 0 {
        out == input@
    } else {
        exists|mid: Vec<Single>, raw: Vec<Single>|
            #![trigger affine.ensures(((n - 1) as usize, mid), raw)]
            {
                &&& passes(affine, total, (n - 1) as nat, input, mid@)
                &&& affine.ensures(((n - 1) as usize, mid), raw)
                &&& out == if n < total {
                    raw@.map_values(|s: Single| rectified(s))
                } else {
                    raw@
                }
            }
    }
}

/// `affine` is the arithmetic of layers with these shapes: it takes and gives as
/// many values as each shape says, and what it gives depends on the layer and
/// the values that it takes alone.
pub open spec fn fits<F: Fn(usize, Vec<Single>) -> Vec<Single>>(
    affine: F,
    layers: Seq<LayerShape>,
) -> bool {
    &&& forall|i: usize, v: Vec<Single>|
        #![trigger affine.requires((i, v))]
        i < layers.len() && v@.len() == layers[i as int].rows ==> affine.requires((i, v))
    &&& forall|i: usize, v: Vec<Single>, out: Vec<Single>|
        #![trigger affine.ensures((i, v), out)]
        i < layers.len() && v@.len() == layers[i as int].rows && affine.ensures((i, v), out)
            ==> out@.len() == layers[i as int].cols
    &&& forall|i: usize, v: Vec<Single>, w: Vec<Single>, p: Vec<Single>, q: Vec<Single>|
        #![trigger affine.ensures((i, v), p), affine.ensures((i, w), q)]
        v@ == w@ && affine.ensures((i, v), p) && affine.ensures((i, w), q) ==> p@ == q@
}

fn rectify(raw: Vec<Single>) -> (out: Vec<Single>)
    ensures
        out@ == raw@.map_values(|s: Single| rectified(s)),
{
    let mut out: Vec<Single> = Vec::with_capacity(raw.len());
    let mut i: usize = 0;
    while i < raw.len()
        invariant
            i <= raw@.len(),
            out@.len() == i,
            forall|k: int| 0 <= k < i ==> #[trigger] out@[k] == rectified(raw@[k]),
        decreases raw.len() - i,
    {
        let s = raw[i];
        if s.is_positive() {
            out.push(s);
        } else {
            out.push(Single { bits: 0 });
        }
        i = i + 1;
    }
    assert(out@ =~= raw@.map_values(|s: Single| rectified(s)));
    out
}

impl PacketCompressor {
    pub open spec fn wf(&self) -> bool {
        chained(self.layers@)
    }

    pub open spec fn input_size(&self) -> usize {
        self.layers@[0].rows
    }

    pub open spec fn compressed_size(&self) -> usize {
        self.layers@[self.layers@.len() - 1].cols
    }

    /// The network for the framebuffer: three hidden layers, narrow enough that
    /// the weights stay in the processor's cache.
    pub fn new(input_size: usize, compressed_size: usize) -> (c: Self)
        ensures
            c.wf(),
            c.input_size() == input_size,
            c.compressed_size() == compressed_size,
            c.layers@ == seq![
                (LayerShape { rows: input_size, cols: 96, pattern: WeightPattern::Waveform }),
                (LayerShape { rows: 96, cols: 72, pattern: WeightPattern::Parabolic }),
                (LayerShape { rows: 72, cols: 48, pattern: WeightPattern::Waveform }),
                (LayerShape { rows: 48, cols: compressed_size, pattern: WeightPattern::Parabolic }),
            ],
            weight_bytes(c.layers@) == 4 * (input_size * 96 + 96 * 72 + 72 * 48 + 48
                * compressed_size),
            input_size == PACKET_VECTOR_SIZE && compressed_size == COMPRESSED_PACKET_SIZE
                ==> weight_bytes(c.layers@) == 630_528,
    {
        let mut layers: Vec<LayerShape> = Vec::new();
        layers.push(LayerShape { rows: input_size, cols: 96, pattern: WeightPattern::Waveform });
        layers.push(LayerShape { rows: 96, cols: 72, pattern: WeightPattern::Parabolic });
        layers.push(LayerShape { rows: 72, cols: 48, pattern: WeightPattern::Waveform });
        layers.push(
            LayerShape { rows: 48, cols: compressed_size, pattern: WeightPattern::Parabolic },
        );
        proof {
            lemma_four_layers(layers@);
        }
        PacketCompressor { layers }
    }

    /// Runs the network on one input.
    pub fn compress<F: Fn(usize, Vec<Single>) -> Vec<Single>>(
        &self,
        affine: &F,
        input: Vec<Single>,
    ) -> (out: Vec<Single>)
        requires
            self.wf(),
            fits(*affine, self.layers@),
            input@.len() == self.input_size(),
        ensures
            out@.len() == self.compressed_size(),
            passes(*affine, self.layers@.len(), self.layers@.len(), input, out@),
    {
        let ghost start = input;
        let total = self.layers.len();
        let mut hidden = input;
        let mut i: usize = 0;
        while i < total
            invariant
                i <= total,
                total == self.layers@.len(),
                self.wf(),
                fits(*affine, self.layers@),
                i < total ==> hidden@.len() == self.layers@[i as int].rows,
                i == total ==> hidden@.len() == self.compressed_size(),
                passes(*affine, total as nat, i as nat, start, hidden@),
            decreases total - i,
        {
            let ghost mid = hidden;
            let raw = affine(i, hidden);
            assert(affine.ensures((i, mid), raw));
            hidden = if i + 1 < total {
                rectify(raw)
            } else {
                raw
            };
            i = i + 1;
            assert(affine.ensures(((i as nat - 1) as usize, mid), raw));
            assert(i < total ==> self.layers@[i as int].rows == self.layers@[i - 1].cols);
        }
        hidden
    }
}

/// `frame` is what a network shows of a packet: the packet's vector, taken
/// through the layers and laid out as a frame.
pub open spec fn shows<F: Fn(usize, Vec<Single>) -> Vec<Single>>(
    affine: F,
    layers: Seq<LayerShape>,
    packet: Seq<u8>,
    frame: Seq<u8>,
) -> bool {
    exists|input: Vec<Single>, out: Seq<Single>|
        {
            &&& is_packet_vector(input@, packet)
            &&& #[trigger] passes(affine, layers.len(), layers.len(), input, out)
            &&& is_payload_frame(frame, out)
        }
}

/// What a packet shows on the matrix: its vector through the network, laid out
/// as a frame.
pub fn packet_to_frame_bytes<F: Fn(usize, Vec<Single>) -> Vec<Single>>(
    compressor: &PacketCompressor,
    affine: &F,
    packet: &[u8],
) -> (frame: [u8; FRAMEBUFFER_SIZE_BYTES])
    requires
        compressor.wf(),
        fits(*affine, compressor.layers@),
        compressor.input_size() == PACKET_VECTOR_SIZE,
    ensures
        shows(*affine, compressor.layers@, packet@, frame@),
{
    let input = bytes_to_f32_vector(packet);
    let ghost v = input;
    let compressed = compressor.compress(affine, input);
    let frame = compressed_payload_to_frame_bytes(compressed.as_slice());
    assert(passes(*affine, compressor.layers@.len(), compressor.layers@.len(), v, compressed@));
    frame
}

/// The network gives equal values for equal values.
pub proof fn compress_is_deterministic<F: Fn(usize, Vec<Single>) -> Vec<Single>>(
    affine: F,
    layers: Seq<LayerShape>,
    a: Vec<Single>,
    b: Vec<Single>,
    x: Seq<Single>,
    y: Seq<Single>,
)
    requires
        fits(affine, layers),
        a@ == b@,
        passes(affine, layers.len(), layers.len(), a, x),
        passes(affine, layers.len(), layers.len(), b, y),
    ensures
        x == y,
{
    lemma_passes_deterministic(affine, layers, layers.len(), a, b, x, y);
}

proof fn lemma_passes_deterministic<F: Fn(usize, Vec<Single>) -> Vec<Single>>(
    affine: F,
    layers: Seq<LayerShape>,
    n: nat,
    a: Vec<Single>,
    b: Vec<Single>,
    x: Seq<Single>,
    y: Seq<Single>,
)
    requires
        fits(affine, layers),
        a@ == b@,
        passes(affine, layers.len(), n, a, x),
        passes(affine, layers.len(), n, b, y),
    ensures
        x == y,
    decreases n,
{
    if n > 0 {
        let i = (n - 1) as usize;
        let total = layers.len();
        let (v, p) = choose|mid: Vec<Single>, raw: Vec<Single>|
            #![trigger affine.ensures((i, mid), raw)]
            {
                &&& passes(affine, total, (n - 1) as nat, a, mid@)
                &&& affine.ensures((i, mid), raw)
                &&& x == if n < total {
                    raw@.map_values(|s: Single| rectified(s))
                } else {
                    raw@
                }
            };
        let (w, q) = choose|mid: Vec<Single>, raw: Vec<Single>|
            #![trigger affine.ensures((i, mid), raw)]
            {
                &&& passes(affine, total, (n - 1) as nat, b, mid@)
                &&& affine.ensures((i, mid), raw)
                &&& y == if n < total {
                    raw@.map_values(|s: Single| rectified(s))
                } else {
                    raw@
                }
            };
        lemma_passes_deterministic(affine, layers, (n - 1) as nat, a, b, v@, w@);
    }
}

/// Packets that agree in the bytes that reach the network, where a byte that is
/// missing counts as zero, show the same frame.
pub proof fn equal_packets_show_the_same<F: Fn(usize, Vec<Single>) -> Vec<Single>>(
    affine: F,
    layers: Seq<LayerShape>,
    p: Seq<u8>,
    q: Seq<u8>,
    f: Seq<u8>,
    g: Seq<u8>,
)
    requires
        fits(affine, layers),
        forall|i: int|
            0 <= i < PACKET_VECTOR_SIZE ==> #[trigger] byte_or_zero(p, i) == byte_or_zero(q, i),
        shows(affine, layers, p, f),
        shows(affine, layers, q, g),
    ensures
        f == g,
{
    let n = layers.len();
    let (a, x) = choose|input: Vec<Single>, out: Seq<Single>|
        is_packet_vector(input@, p) && #[trigger] passes(affine, n, n, input, out)
            && is_payload_frame(f, out);
    let (b, y) = choose|input: Vec<Single>, out: Seq<Single>|
        is_packet_vector(input@, q) && #[trigger] passes(affine, n, n, input, out)
            && is_payload_frame(g, out);
    vector_is_determined(a@, b@, p, q);
    compress_is_deterministic(affine, layers, a, b, x, y);
    assert(f =~= g);
}

proof fn lemma_four_layers(layers: Seq<LayerShape>)
    requires
        layers.len() == 4,
    ensures
        weight_count(layers) == layers[0].rows as nat * layers[0].cols as nat
            + layers[1].rows as nat * layers[1].cols as nat + layers[2].rows as nat
            * layers[2].cols as nat + layers[3].rows as nat * layers[3].cols as nat,
{
    reveal_with_fuel(weight_count, 5);
}

} // verus!
