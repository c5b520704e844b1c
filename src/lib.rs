//! Gallery ingestion and reconciliation: media extraction from chat messages,
//! a gallery directory with one gallery per channel, and a post store whose
//! posts for one message are replaced as a unit when that message is edited.

pub mod media;
pub mod text;
pub mod extract;
pub mod store;
pub mod ingest;
pub mod admission;
pub mod command;
pub mod db_error;
