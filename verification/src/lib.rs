//! Core of a QEMU virtual machine manager: VM records and their validation,
//! QEMU command lines, accelerator selection and the small text formats
//! that QEMU and its tools exchange with the manager.

pub mod accel;
pub mod config;
pub mod consoles;
pub mod env;
pub mod manager;
pub mod paths;
pub mod process;
pub mod qemu;
pub mod qmp;
pub mod snapshots;
pub mod ssh;
pub mod store;
pub mod text;
pub mod vm;
