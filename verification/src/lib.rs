//! Backing up and restoring the projects and settings of a LinnStrument.
//!
//! Every decision that a backup or a restore takes is made here, on plain
//! values; opening ports, moving bytes and writing files is left to the
//! program around this library.

pub mod backup;
pub mod backup_laws;
pub mod connect;
pub mod connect_laws;
pub mod crc;
pub mod device;
pub mod devices;
pub mod discovery;
pub mod files;
pub mod instrument;
pub mod little_endian;
pub mod loading_laws;
pub mod naming;
pub mod protocol;
pub mod restore;
pub mod restore_laws;
pub mod saving_laws;
pub mod telling_laws;
pub mod text;
