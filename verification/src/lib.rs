//! Peer-to-peer file swapping: the decisions of the chat room, of the barter session and of the
//! rendezvous server.

pub mod addresses;
pub mod barter;
pub mod barter_laws;
pub mod chat_laws;
pub mod chat_room;
pub mod chat_types;
pub mod clock;
pub mod command_laws;
pub mod event_laws;
pub mod foreign;
pub mod launch;
pub mod messages;
pub mod plan;
pub mod registration;
pub mod rendezvous_server;
pub mod sealing;
pub mod session_laws;
pub mod settings;
pub mod table;
pub mod text;
