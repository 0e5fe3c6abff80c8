pub mod types;
pub mod spec;
pub mod pallet;
pub mod laws;
