//! Message protocol, session model and query lifecycle of a desktop launcher
//! whose search results come from independent plugin processes.

pub mod app_info;
pub mod codec;
pub mod constants;
pub mod coordinator;
pub mod ghit;
pub mod json;
pub mod package;
pub mod path;
pub mod plugin;
pub mod registry;
pub mod session;
pub mod socket;
