//! Verified core of the SAPHOJUICE speed probe.

pub mod conditions;
pub mod fnv;
pub mod inventory;
pub mod json;
pub mod measure;
pub mod opts;
pub mod payload;
pub mod platform;
pub mod sha256;
pub mod text;

pub use sha256::Sha256;
