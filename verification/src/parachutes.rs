pub mod types;
pub mod registry;
pub mod spec;
pub mod pallet;
pub mod laws;
pub mod integrity;
pub mod append_only;
