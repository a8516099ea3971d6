use starlight::frame::{clear_frame, reset_capture_buffer, startup_splash};
use starlight::i2c::{
    i2c_compressor, i2c_splash, packet_to_register_blocks, payload_bytes, register_blocks, wash,
};
use starlight::network::WeightPattern;
use starlight::{
    bytes_to_f32_vector, compressed_payload_to_frame_bytes, packet_to_frame_bytes, pulse_frame,
    PacketCompressor, Single, THERMAL_STATE_CRITICAL, THERMAL_STATE_NORMAL, THERMAL_STATE_WARNING,
};

fn single(value: f32) -> Single {
    Single { bits: value.to_bits() }
}

#[test]
fn payload_comes_back_out_of_its_frame() {
    let values: Vec<f32> = (0..40).map(|i| i as f32 * 1.5 - 7.25).collect();
    let payload: Vec<Single> = values.iter().map(|v| single(*v)).collect();
    let frame = compressed_payload_to_frame_bytes(&payload);
    assert_eq!(frame.len(), 128);
    for (chunk, value) in frame.chunks_exact(4).zip(values.iter()) {
        assert_eq!(chunk, value.to_le_bytes());
    }
}

#[test]
fn short_payload_is_padded_with_zeros() {
    let frame = compressed_payload_to_frame_bytes(&[single(1.0)]);
    assert_eq!(&frame[..4], &[0, 0, 0x80, 0x3f]);
    assert!(frame[4..].iter().all(|b| *b == 0));
}

#[test]
fn zero_bytes_at_the_end_of_a_packet_change_nothing() {
    let short = bytes_to_f32_vector(&[1, 2, 3]);
    let long = bytes_to_f32_vector(&[1, 2, 3, 0, 0]);
    assert_eq!(short, long);
    let mut over = vec![9u8; 1518];
    let cut = bytes_to_f32_vector(&over);
    over.push(200);
    assert_eq!(bytes_to_f32_vector(&over), cut);
}

#[test]
fn pulse_is_yellow_then_red() {
    let warning = pulse_frame(THERMAL_STATE_WARNING);
    assert_eq!(warning, [0xFF, 0xF0].repeat(64));
    let critical = pulse_frame(THERMAL_STATE_CRITICAL);
    assert_eq!(critical, [0xFF, 0].repeat(64));
    assert_eq!(pulse_frame(THERMAL_STATE_NORMAL), vec![0; 128]);
    assert_eq!(clear_frame(), vec![0; 128]);
}

#[test]
fn splash_shows_bars_and_a_red_wash() {
    let steps = startup_splash();
    let holds: Vec<u64> = steps.iter().map(|s| s.hold_secs).collect();
    assert_eq!(holds, vec![3, 0, 3, 0]);
    let mut bars = vec![0u8; 128];
    for i in 0..8 {
        bars[i * 2 + 1] = 0x0F;
    }
    assert_eq!(steps[0].frame, bars);
    assert_eq!(steps[1].frame, vec![0; 128]);
    assert_eq!(steps[2].frame, [255u8, 0].repeat(64));
    assert_eq!(steps[3].frame, vec![0; 128]);
}

#[test]
fn capture_buffer_is_cleared_for_reuse() {
    assert_eq!(reset_capture_buffer(vec![7; 60]), vec![0; 1518]);
    assert_eq!(reset_capture_buffer(vec![7; 2000]), vec![0; 1518]);
}

#[test]
fn framebuffer_network_has_three_hidden_layers() {
    let shapes: Vec<(usize, usize, WeightPattern)> = PacketCompressor::new(1518, 32)
        .layers
        .iter()
        .map(|l| (l.rows, l.cols, l.pattern))
        .collect();
    assert_eq!(
        shapes,
        vec![
            (1518, 96, WeightPattern::Waveform),
            (96, 72, WeightPattern::Parabolic),
            (72, 48, WeightPattern::Waveform),
            (48, 32, WeightPattern::Parabolic),
        ]
    );
    let bytes: usize = shapes.iter().map(|(rows, cols, _)| rows * cols * 4).sum();
    assert_eq!(bytes, 630_528);
}

#[test]
fn hidden_layers_are_rectified_and_the_last_is_not() {
    let compressor = PacketCompressor::new(1518, 32);
    let affine = |i: usize, v: Vec<Single>| {
        let cols = [96, 72, 48, 32][i];
        if i > 0 {
            assert_eq!(v[0], single(0.0));
            assert_eq!(v[1], single(0.0));
            assert_eq!(v[2], single(0.5));
        }
        let mut out = vec![single(f32::NAN); cols];
        out[0] = single(-1.0);
        out[2] = single(0.5);
        out
    };
    let frame = packet_to_frame_bytes(&compressor, &affine, &[1, 2, 3]);
    assert_eq!(&frame[..4], (-1.0f32).to_le_bytes());
    assert_eq!(&frame[8..12], (0.5f32).to_le_bytes());
}

#[test]
fn packet_goes_out_in_register_blocks() {
    let compressor = i2c_compressor(1518, 48);
    let affine = |i: usize, v: Vec<Single>| {
        let cols = [1024, 512, 48][i];
        (0..cols).map(|j| if i == 2 { single(j as f32 - 0.5) } else { v[j] }).collect()
    };
    let blocks = packet_to_register_blocks(&compressor, &affine, &[1, 2, 3]);
    let registers: Vec<u8> = blocks.iter().map(|b| b.register).collect();
    assert_eq!(registers, vec![0, 6, 12, 18, 24, 30]);
    let data: Vec<u8> = blocks.iter().flat_map(|b| b.data.clone()).collect();
    let expected: Vec<u8> = (0..48).flat_map(|j| (j as f32 - 0.5).to_le_bytes()).collect();
    assert_eq!(data, expected);
    let padded = packet_to_register_blocks(&compressor, &affine, &[1, 2, 3, 0]);
    assert!(padded.iter().zip(&blocks).all(|(a, b)| a.data == b.data));
}

#[test]
fn register_blocks_cut_a_picture_in_six() {
    let picture: Vec<u8> = (0..192).map(|i| i as u8).collect();
    let blocks = register_blocks(&picture);
    let registers: Vec<u8> = blocks.iter().map(|b| b.register).collect();
    assert_eq!(registers, vec![0, 6, 12, 18, 24, 30]);
    let data: Vec<u8> = blocks.iter().flat_map(|b| b.data.clone()).collect();
    assert_eq!(data, picture);
}

#[test]
fn register_blocks_end_with_a_short_one() {
    let blocks = register_blocks(&[5; 33]);
    assert_eq!(blocks.len(), 2);
    assert_eq!(blocks[0].data, vec![5; 32]);
    assert_eq!(blocks[1].data, vec![5]);
    assert_eq!(blocks[1].register, 6);
    assert!(register_blocks(&[]).is_empty());
    assert_eq!(register_blocks(&[1; 1376]).last().map(|b| b.register), Some(252));
}

#[test]
fn i2c_display_starts_with_a_test_card() {
    let steps = i2c_splash();
    let holds: Vec<u64> = steps.iter().map(|s| s.hold_secs).collect();
    assert_eq!(holds, vec![0, 8, 5, 0]);
    assert_eq!(steps[1].frame.len(), 24);
    assert_eq!(&steps[1].frame[..6], &[255, 255, 0, 255, 0, 0]);
    assert_eq!(steps[2].frame, [255u8, 0, 0].repeat(64));
    assert_eq!(steps[3].frame, vec![0u8; 192]);
    assert_eq!(wash(1, 2, 3), [1u8, 2, 3].repeat(64));
}

#[test]
fn i2c_network_fills_the_picture() {
    let compressor = i2c_compressor(1518, 48);
    assert_eq!(compressor.layers.len(), 3);
    assert_eq!(compressor.layers[2].cols, 48);
    let payload = vec![single(-2.5); 48];
    let bytes = payload_bytes(&payload);
    assert_eq!(bytes, (-2.5f32).to_le_bytes().repeat(48));
}
