//! A message bridge between group chats on several chat platforms: the
//! canonical message model, the identity and correlation stores, the bind
//! protocol, command recognition, the fan-out decisions of the bus, and the
//! pure parts of what platform adapters do with messages.

// Text and numbers.
pub mod decimal;
pub mod text;

// The data model.
pub mod config;
pub mod message;
pub mod platform;

// The stores.
pub mod history;
pub mod message_store;
pub mod user;

// The bus and its adapters' message handling.
pub mod bus;
pub mod media;
pub mod mention;
pub mod translate;

// Commands and the bind protocol.
pub mod bind;
pub mod command;
pub mod token;

// The pairwise binding map and its commands.
pub mod bind_map;
pub mod cmd;
pub mod cmd_adapter;

// Platform specifics.
pub mod discord;
pub mod group_message_id;
pub mod mirai;
pub mod qq;
pub mod telegram;
