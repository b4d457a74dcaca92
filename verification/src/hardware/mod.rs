//! What the dashboard reports of the machine, and the rules that turn raw
//! system readings into it.
pub mod engines;
pub mod bandwidth;
pub mod gpu;
pub mod cpu;
pub mod os_info;
pub mod memory;
pub mod disk;
pub mod vpn;
