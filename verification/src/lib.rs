//! Controller logic for the Behringer Ultradrive Pro DCX2496 on a serial bus.
pub mod protocol;
pub mod location;
pub mod reader;
pub mod ultradrive;
pub mod laws;
pub mod text;
pub mod connection;
pub mod routes;
pub mod client;
pub mod page;
