//! Assembly of provider observations into the canonical current state.

pub mod ids;
pub mod assemble;
pub mod linux;
pub mod native;
pub mod cli;
pub mod capabilities;
pub mod providers;
pub mod snapshot;
