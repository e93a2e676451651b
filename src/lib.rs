//! Runtime execution stage of a droplet-grid controller: the command model,
//! logical-to-physical coordinate translation, a small droplet table, and the
//! execution state machine with its observer handshake.

pub mod action;
pub mod exec;
pub mod grid;
pub mod placement;

pub use action::Action;
pub use exec::{Event, Executor, Phase, Response};
pub use grid::{DropletId, DropletInfo, GridView, Location};
pub use placement::Placement;
