//! The decision-making core of a small virtual machine monitor.

pub mod balloon;
pub mod config_space;
pub mod device_laws;
pub mod discard;
pub mod events;
pub mod frq;
pub mod fs_device;
pub mod guest_memory;
pub mod ledger;
pub mod ledger_bounds;
pub mod ledger_laws;
pub mod ledger_leases;
pub mod ledger_memory;
pub mod ledger_sound;
pub mod mapping_runs;
pub mod memory;
pub mod memory_laws;
pub mod platform;
pub mod probe;
pub mod probe_laws;
pub mod probe_text;
pub mod ram_laws;
pub mod ram_layout;
pub mod reclaim;
pub mod reclaim_memory;
pub mod remap;
pub mod rosetta;
pub mod rosetta_laws;
pub mod scratch;
pub mod snapshot;
pub mod text;
pub mod text_laws;
pub mod touch;
pub mod vcpu;
pub mod vcpu_laws;
pub mod vhost_gpu;
pub mod vhost_laws;
pub mod vhost_user;
pub mod vsock;
