pub mod tlm_decode;
pub mod signal_modulation;
