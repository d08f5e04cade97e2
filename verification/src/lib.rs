//! A directory-listing renderer: classifies entries with a semantic icon,
//! orders them deterministically, and lays them out in a multi-column grid
//! sized to the terminal width.

pub mod emoji_utils;
pub mod file_entry;
pub mod layout;
pub mod order;
pub mod text;
pub mod unicode;
