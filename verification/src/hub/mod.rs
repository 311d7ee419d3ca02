//! The sessions of a running server, as clients see them.
pub mod catalog;
pub mod change_law;
pub mod ended_law;
pub mod frames;
pub mod frames_law;
pub mod model;
pub mod projection;
pub mod queue;
pub mod replay;
pub mod seen_law;
pub mod state;
