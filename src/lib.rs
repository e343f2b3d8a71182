//! Commands for a device running Spade, issued over a serial link.
//!
//! The device takes two commands. A probe tells whether it runs a legacy
//! version; an upload sends a named program and reads back the device's
//! verdict.
pub mod frame;
pub mod outcome;
pub mod port;
pub mod reply;
pub mod session;
pub mod text;

pub use outcome::{UploadError, UploadResult};
pub use session::{is_running_legacy, upload_game};
