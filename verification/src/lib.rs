//! The desktop shell of an offline password manager: the decisions it takes,
//! the formats it reads and writes, and the plans that its windows, devices
//! and processes follow.

pub mod autotype;
pub mod config;
pub mod crypto;
pub mod encoding;
pub mod ext_connector;
pub mod ext_frames;
pub mod ext_manifest;
pub mod ext_process;
pub mod fs;
pub mod hwcrypto;
pub mod json;
pub mod native;
pub mod net;
pub mod paths;
pub mod platform;
pub mod power;
pub mod shell;
pub mod shortcuts;
pub mod snapshot;
pub mod spawn;
pub mod text;
pub mod webkit_prefs;
pub mod window;
