pub mod telemetry_decode;
pub mod channel;
