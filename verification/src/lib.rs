//! The decisions of a worker that watches a machine: its configuration, the schedule and the
//! meaning of its health checks, the rounds over its containers, and what is made of the
//! readings of the machine. Connections, processes, files and clocks are left to the caller,
//! who does what is asked for and hands back what came of it.

pub mod config;
pub mod docker_monitor;
pub mod health_check;
pub mod interval;
pub mod laws;
pub mod system_status;
pub mod text;
pub mod trusted;
