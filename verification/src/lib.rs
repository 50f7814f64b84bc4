pub mod biot;
pub mod biot_collection;
pub mod geom;
mod rng;
pub mod spatial;
