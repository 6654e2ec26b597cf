//! A live event dashboard core: an aggregate snapshot of keyed, timestamped
//! events, two ordering algorithms that linearize it for display, and the
//! state of the controller that adopts snapshots from an asynchronous channel.

pub mod batch;
pub mod channel;
pub mod event;
pub mod lexorder;
pub mod line;
pub mod order;
pub mod ui;
