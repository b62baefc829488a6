pub mod api;
pub mod config;
pub mod csi;
pub mod guarantees;
pub mod laws;
pub mod ops;
pub mod text;
