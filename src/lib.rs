//! Classification of package identifiers into registry, git and path
//! sources, and rendering of the collected sources as recipe lines.
pub mod descriptor;
pub mod guard;
pub mod laws;
pub mod legacy;
pub mod package_id;
pub mod recipe;
pub mod sources;
pub mod text;
pub mod tool;
