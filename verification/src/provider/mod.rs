//! Discovery of optional native libraries and command-line tools.

pub mod entries;
pub mod native;
pub mod registry;
