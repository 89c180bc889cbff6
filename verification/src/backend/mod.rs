pub mod horizon;
pub mod id;
pub mod information;
pub mod label;
pub mod runner;
pub mod state;
