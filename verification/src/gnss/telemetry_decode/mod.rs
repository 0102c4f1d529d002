pub mod gps;
