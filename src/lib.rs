//! Resolves a platform-specific download link: the runtime's operating system
//! and architecture are expanded into the names vendors publish under, a link
//! is rendered for every pair of names, and the pairs are probed in order
//! until one answers with success.

pub mod candidates;
pub mod probe;
pub mod render;
pub mod resolve;
pub mod table;

