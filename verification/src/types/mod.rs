pub mod even_odd_iter;
pub mod even_odd_slice;
