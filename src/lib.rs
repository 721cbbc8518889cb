//! Core of a gateway for persistent device connections: the command text
//! format and its targeting rule, device identities, the registry of online
//! devices, the per-connection session state machine, and the naming and
//! format of each device's data log.

pub mod clock;
pub mod command;
pub mod directory;
pub mod info;
pub mod log;
pub mod registry;
pub mod session;
pub mod settings;
pub mod text;
