//! What holds of the station and its parts, stated from what goes in and what comes out.

pub mod words;
pub mod values;
pub mod links;
pub mod vehicles;
pub mod parameters;
pub mod files;
pub mod panels;
pub mod station;
pub mod wire;
pub mod functions;
pub mod messages;
pub mod parts;
pub mod details;
