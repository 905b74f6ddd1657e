//! Raid invitation finder: the key schema of the store, recognition of raid
//! posts, OAuth request signing, the record codec, the translator map that
//! pairs boss names across languages, and the subscriber registry that
//! invitations fan out to.
pub mod actor;
pub mod codec;
pub mod config;
pub mod error;
pub mod image;
pub mod keys;
pub mod language;
pub mod models;
pub mod oauth;
pub mod parser;
pub mod pipeline;
pub mod records;
pub mod server;
pub mod sign;
pub mod stream;
pub mod subscribers;
pub mod table;
pub mod text;
pub mod translator;
pub mod wire;
