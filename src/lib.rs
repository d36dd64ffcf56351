//! Core of a virtual machine monitor: the VM lifecycle state machine, the
//! configuration bookkeeping that follows device hotplug and resizing, NUMA
//! topology validation, the trusted-domain firmware layout, the boot and
//! trap-handler decisions, and the migration transfer bookkeeping.
//!
//! Every function here is verified, except three thin wrappers around
//! linux-loader's command-line builder whose contracts are trusted. The
//! collaborators that touch the host (hypervisor, memory, devices, files,
//! sockets) are driven by the caller, which performs the steps planned here
//! and hands their results back as plain values.
pub mod state;
pub mod tdx;
pub mod numa;
pub mod config;
pub mod boot;
pub mod cmdline;
pub mod vmops;
pub mod migration;
pub mod lifecycle;
pub mod signals;
