//! Canonical storage graph model.

pub mod block;
pub mod nonzero;
pub mod sizes;
pub mod raid;
pub mod kinds;
pub mod node;
pub mod graph;
pub mod state;
pub mod extent;
pub mod equality;
