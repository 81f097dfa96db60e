//! A multi-tenant score board: what each request asks of the databases and the clocks around it,
//! and what it is answered.
pub mod admin;
pub mod auth;
pub mod billing;
pub mod cache;
pub mod db;
pub mod error;
pub mod ids;
pub mod laws;
mod list;
pub mod lookup;
pub mod model;
pub mod organizer;
pub mod player;
pub mod question;
pub mod rnd;
pub mod scores;
pub mod setup;
pub mod tenant;
pub mod text;
pub mod upload;
pub mod viewer;
