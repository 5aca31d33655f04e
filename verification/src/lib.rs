//! Connection-management primitives for a realtime messaging server:
//! identifiers and byte helpers, server configuration, CONNECT negotiation,
//! the connection registry with its user index, session management and
//! authentication state.

pub mod adapter;
pub mod auth;
pub mod auth_handler;
pub mod auth_connections;
pub mod auth_manager;
pub mod builder;
pub mod config;
pub mod conflict;
pub mod connection;
pub mod device;
pub mod device_manager;
pub mod error;
pub mod events;
pub mod fanout;
pub mod heartbeat;
pub mod heartbeat_manager;
pub mod inbound;
pub mod keyed;
pub mod manager;
pub mod message_handler;
pub mod negotiation;
pub mod protocol;
pub mod registry;
pub mod server_builders;
pub mod session;
pub mod stats;
pub mod strings;
pub mod user_based;
pub mod user_connections;
pub mod utils;
pub mod wrapper;
pub mod write_queue;
