pub mod gps_l1_ca;
pub mod telemetry_decode;
pub mod gps_l2c;
