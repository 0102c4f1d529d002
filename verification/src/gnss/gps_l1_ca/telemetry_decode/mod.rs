pub mod subframe;
