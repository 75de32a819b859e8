//! IEC 60870-5-104 simulator core: frame codec, command builders, station
//! data model, and the protocol decisions of the master and slave roles.
pub mod bytes;
pub mod clock;
pub mod config;
pub mod data_point;
pub mod frame;
pub mod interop;
pub mod master;
pub mod master_app;
pub mod slave;
pub mod text;
pub mod tools;
pub mod types;
pub mod update;
