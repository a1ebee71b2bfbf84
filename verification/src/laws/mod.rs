//! What the operations of the library are for, stated of what goes in and what comes out.

pub mod checks;
pub mod config;
pub mod containers;
pub mod intervals;
pub mod machine;
pub mod replay;
pub mod schedule;
pub mod text;
pub mod urls;
