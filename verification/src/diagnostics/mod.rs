pub mod cpu;
pub mod memory;
pub mod network;
pub mod system;
pub mod pressure;
pub mod diskstats;
pub mod disk;
pub mod host;
