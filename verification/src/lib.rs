//! Key-remapping engine: a table-driven mapping from physical key transitions
//! to virtual keyboard events and virtual gamepad frames, with deterministic
//! resolution of simultaneously held opposite directions, analog-stick
//! priority aggregation, d-pad complement handling, and a mash-trigger flag.

pub mod aggregate;
pub mod config;
pub mod dpad;
pub mod engine;
pub mod masher;
pub mod socd;
pub mod types;

pub use engine::{EventOutput, KeyInterceptor, RemapEngine};
pub use types::{
    ActionKind, Axis, ConfigError, ConfigRecord, DpadComplement, GamepadFrame, HatAxis, HatEvent,
    KeyBinding, KeyEvent, OppositeKeyPair, SocdKind,
};
