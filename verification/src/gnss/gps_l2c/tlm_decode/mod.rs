pub mod error_detection;
pub mod preamble_and_crc;
pub mod preamble_detection;
pub mod message_decode;
pub mod error_correction;
