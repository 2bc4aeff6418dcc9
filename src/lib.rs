//! Archive extraction logic: format detection by magic bytes, leading
//! path-component stripping, and the per-entry plan for zip members.

pub mod extract;
pub mod path;
pub mod sniff;
