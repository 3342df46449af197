//! MPEG-TS stream analysis: transport-stream packet parsing, PSI table
//! decoding (PAT/PMT), per-PID stream statistics and TR 101 290 checks.

pub mod packet_capture;
pub mod crc32;
pub mod pid_map;
pub mod stream_data;
pub mod psi;
pub mod clock;
pub mod streams;
pub mod tr101290;
pub mod system_stats;
pub mod probe;
pub mod reporting;
pub mod text;
pub use crate::clock::current_unix_timestamp_ms;
