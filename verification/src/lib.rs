//! The logic of a wrapper around the terminal service of Windows.
//!
//! The library makes no call into the system. Each part of the wrapper
//! says what it wants done (`action`, and the requests of
//! `loading`, `log` and `threads`), takes the answer, and goes on.
//!
//! - `ini_file` is the configuration, with its laws in `ini_laws` and
//!   `file_laws`; `settings` reads single settings with a default.
//! - `hook` installs the wrapper, with the laws of whole runs in `hook_laws` and
//!   those of its steps in `install_laws`; `patch` is what it changes in the code
//!   of the service, with its laws in `patch_laws`, and `farjmp` the jumps that it
//!   writes.
//! - `policy` and `sl_init` are what happens once a jump was taken, with their
//!   laws in `policy_laws` and `sl_init_laws`, and `service` is what happens when
//!   the service host calls.
//! - `text`, `number`, `utf16`, `bytes`, `paths`, `version` and `image` are the
//!   formats that all of this reads and writes.

pub mod action;
pub mod bytes;
pub mod farjmp;
pub mod file_laws;
pub mod globals;
pub mod hook;
pub mod hook_laws;
pub mod image;
pub mod ini_file;
pub mod ini_laws;
pub mod install_laws;
pub mod loading;
pub mod log;
pub mod number;
pub mod patch;
pub mod patch_laws;
pub mod paths;
pub mod policy;
pub mod policy_laws;
pub mod service;
pub mod settings;
pub mod sl_init;
pub mod sl_init_laws;
pub mod text;
pub mod threads;
pub mod utf16;
pub mod version;
