//! Laws of the contract: what holds across its operations, stated over the
//! results that the operations promise.

pub mod amounts;
pub mod entries;
pub mod health;
pub mod interpolation;
pub mod lending;
pub mod lifecycle;
pub mod pool;
pub mod records;
pub mod settlement;
pub mod settling;
