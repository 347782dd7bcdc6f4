pub mod client_manager;
pub mod server_manager;
pub mod status;

pub use client_manager::ClientManager;
pub use server_manager::ServerManager;
pub use status::{ClientStatusInfo, ServerStatusInfo};
