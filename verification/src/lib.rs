pub mod clock;
pub mod crypto;
pub mod ident;
pub mod ipc;
pub mod name_map;
pub mod network;
pub mod platform;
pub mod render;
pub mod sandbox;
pub mod security;
pub mod storage;
pub mod text;
