//! The verified core of a MAVLink ground station.

pub mod application;
pub mod command;
pub mod connection;
pub mod dialect;
pub mod file_text;
pub mod flight_mode;
pub mod ident;
pub mod laws;
pub mod link;
pub mod panel;
pub mod parameter_file;
pub mod parameter_update;
pub mod parameters;
pub mod single;
pub mod sorted;
pub mod telemetry;
pub mod text;
pub mod udp;
pub mod value;
pub mod vehicle;
pub mod wire;
