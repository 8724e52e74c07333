//! Keeps a Windows machine awake: the decisions of the tray program and of the
//! command line companion, separated from the Win32 calls that carry them out.

pub mod time;
pub mod state;
pub mod text;
pub mod i18n;
pub mod utf16;
pub mod ipc;
pub mod util;
pub mod cli;
pub mod leases;
pub mod power;
pub mod program;
