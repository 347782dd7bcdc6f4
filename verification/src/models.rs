pub mod client;
pub mod server;
pub mod session;
pub mod user;

pub use client::{Client, ClientStatus, CreateClient, UpdateClient};
pub use server::{CreateServer, Server, ServerStatus, UpdateServer};
pub use session::{Session, SessionStats, SessionType};
pub use user::{CreateUser, LoginRequest, LoginResponse, User, UserInfo};
