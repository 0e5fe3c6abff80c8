//! The smokejumper loft: two pallets of a parachute loft's records, with
//! their storage held as a verified model. `smokejumper` keeps smokejumpers'
//! names and asks for their accounts to be funded; `parachutes` keeps which
//! smokejumper put each parachute into service, rigged, repaired and retired
//! it, in ledgers keyed by nonces.

pub mod bytes;
pub mod dispatch;
pub mod views;
pub mod parachutes;
pub mod smokejumper;
