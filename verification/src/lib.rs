//! Packet-driven display and thermal supervision for the Sense HAT 8x8 matrix.

pub mod capture;
pub mod config;
pub mod connections;
pub mod console;
pub mod decimal;
pub mod frame;
pub mod i2c;
pub mod launch;
pub mod laws;
pub mod network;
pub mod publisher;
pub mod rounding;
pub mod runtime;
pub mod sensor;
pub mod setup;
pub mod single;
pub mod socket;
pub mod supervision;
pub mod text;
pub mod thermal;

pub use config::{parse_temp_env, parse_temp_interval_env, Config};
pub use frame::{bytes_to_f32_vector, compressed_payload_to_frame_bytes, pulse_frame};
pub use launch::{first_step, run, serve};
pub use network::{packet_to_frame_bytes, PacketCompressor};
pub use publisher::{emit_thermal_signal, ThermalSignalPublisher};
pub use sensor::read_cpu_temperature_c;
pub use single::Single;
pub use socket::{
    bind_signal_socket, current_effective_username, drain_pending_clients, ensure_socket_mode,
    ensure_socket_owner, lookup_user_ids,
};
pub use thermal::{
    thermal_payload, thermal_recommendation, thermal_state_name, unix_timestamp_seconds,
};
use vstd::prelude::*;

verus! {

pub const THERMAL_STATE_NORMAL: u8 = 0;

pub const THERMAL_STATE_WARNING: u8 = 1;

pub const THERMAL_STATE_CRITICAL: u8 = 2;

/// The number of packet bytes that reach the network: one Ethernet frame.
pub const PACKET_VECTOR_SIZE: usize = 1518;

/// The number of values that the network gives for one packet.
pub const COMPRESSED_PACKET_SIZE: usize = 32;

/// The size of the matrix: 64 pixels of 16 bits, or 32 singles.
pub const FRAMEBUFFER_SIZE_BYTES: usize = 128;

} // verus!
