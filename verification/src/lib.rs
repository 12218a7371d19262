//! Locates the active Java installation of a host, and files inside it.
//!
//! The library decides; it does not touch the host. A lookup works on a
//! [`host::Host`], the record of what the host has answered so far, and ends
//! in a [`host::Progress`]: the path that was looked for, an error, or the
//! question that the host has to answer next. The caller answers it from the
//! real system, or from a made-up one, records the answer and calls again:
//!
//! ```text
//! loop {
//!     match locate_java_home(&host) {
//!         Progress::Done(result) => return result,
//!         Progress::Need(query) => /* ask the system, then host.record_..(..) */,
//!     }
//! }
//! ```
//!
//! A lookup never asks what it was told already.

pub mod errors;
pub mod file;
pub mod home;
pub mod host;
pub mod links;
pub mod path;
pub mod pattern;
pub mod platform;
pub mod text;

pub use crate::file::{locate_file, locate_jvm_dyn_library};
pub use crate::home::locate_java_home;
pub use crate::platform::get_jvm_dyn_lib_file_name;
