//! The rules behind the `doctor` command of the Stellar CLI.

pub mod cache;
pub mod command;
pub mod error;
pub mod installs;
pub mod networks;
pub mod print;
pub mod probe;
pub mod settings;
pub mod text;
pub mod toolchain;
pub mod version;
