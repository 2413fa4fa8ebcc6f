//! Session management for HID devices.
//!
//! A caller enumerates the attached devices, opens a session on one of
//! them, writes to it and reads from it with a time limit, and closes it.
//! The crate keeps two things straight while that happens: the directory of
//! devices as of the last enumeration, and the registry of open sessions.
//!
//! Sessions are addressed by device path ([`desktop::Hid`]) or, in a
//! deployment that prefers it, by tokens that the manager issues
//! ([`opaque::TokenHid`]). On handheld platforms the devices live behind a
//! bridge; [`mobile`] words the requests and reads the replies.
//!
//! Raw transport is left to the platform HID library. What this crate
//! assumes of it stands in [`backend`], and nowhere else.

pub mod backend;
pub mod desktop;
pub mod directory;
pub mod error;
pub mod mobile;
pub mod models;
pub mod opaque;
pub mod registry;
pub mod table;
pub mod token;

pub use desktop::{init, Hid};
pub use error::Error;
pub use models::{
    CloseArgs, EnumerateResult, HidDeviceInfo, OpenArgs, ReadArgs, ReadResult, WriteArgs,
};
pub use opaque::TokenHid;
