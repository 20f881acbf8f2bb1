//! What the connector promises, said of inputs and results alone.
//!
//! Each law relates what goes in to what comes out by the texts and numbers
//! themselves, so that it can be read without the definitions behind it.

pub mod text;
pub mod migration_text;
pub mod config;
pub mod database;
pub mod schema;
pub mod migrations;
pub mod run;
pub mod setup;
pub mod store;
pub mod backend;
pub mod outcomes;
pub mod steps;
pub mod storages;
