//! Sans-I/O core of a model gateway's data connector.
//!
//! The connector keeps the gateway's history in an Oracle database whose password
//! is a secret that changes. Whatever touches the world (the database, the pool
//! of connections, files, the environment) is done by the embedding program; this
//! crate decides what is done next and what comes of it.
//!
//! - Text: [`text`], [`numbers`], [`checksum`], [`sql_text`], [`redact`].
//! - Configuration: [`config`], [`secret`], [`clock`].
//! - The database: [`db`], [`protocol`], [`schema`], [`migrations`], [`scan`],
//!   [`apply`], [`script`].
//! - The store: [`setup`], [`store`], [`storage`], [`factory`].
//! - What all of it promises: [`laws`].

pub mod text;
pub mod numbers;
pub mod checksum;
pub mod sql_text;
pub mod redact;
pub mod config;
pub mod secret;
pub mod clock;
pub mod db;
pub mod protocol;
pub mod schema;
pub mod migrations;
pub mod scan;
pub mod apply;
pub mod script;
pub mod setup;
pub mod store;
pub mod storage;
pub mod factory;
pub mod laws;
