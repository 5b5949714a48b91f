//! Watch an X Input hierarchy for device hot-plug changes and build, for each
//! individual change, the argument list of an external command to run.
//!
//! The crate holds the decision logic of the watcher: decomposing a change
//! bitmask into single flags, resolving a device descriptor, formatting the
//! fixed four-field argument list, replaying synthetic events for devices
//! already present at startup, and filtering foreign notifications. All
//! transport and process I/O stays outside.

pub mod device;
pub mod dispatch;
pub mod mask_iter;
pub mod sequencer;
pub mod text;
