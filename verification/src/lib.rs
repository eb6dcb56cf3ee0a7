//! Metadata of the mods of a modpack: the scan of the pack, the records
//! that the answers of two registries make, and the order of the final
//! list.

pub mod curseforge;
pub mod document;
pub mod error;
pub mod json;
pub mod labels;
pub mod lookup;
pub mod modrinth;
pub mod pattern;
pub mod reading;
pub mod record;
pub mod scanner;
pub mod sorting;
pub mod text;
pub mod toml_text;
pub mod version;
pub mod zips;
