pub mod bools_to_int;
