//! Credential vault and session relay: secrets at rest, conversational state,
//! and the ordered relay of a provider's token stream.

pub mod catalog;
pub mod chat;
pub mod conversations;
pub mod crypto;
pub mod error;
pub mod ids;
pub mod lookup;
pub mod paths;
pub mod providers;
pub mod records;
pub mod service;
pub mod settings;
pub mod sorting;
pub mod text;
