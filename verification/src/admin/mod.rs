//! Logic of the desktop client: configuration checks, wikilink rewriting,
//! vault documents, and the records exchanged with its front end.

pub mod api;
pub mod vault_scanner;
pub mod wikilink_replacer;
pub mod vault;
pub mod records;
pub mod models;
pub mod sync_plan;
pub mod image;
pub mod config;
pub mod export;
pub mod ws_client;
pub mod card_heal;
pub mod vault_tree;
pub mod auth_timing;
pub mod cloud_sync;
pub mod cloud_catalog;
pub mod importer;
pub mod db;
pub mod glossary;
pub mod secrets;
pub mod protocol;
pub mod card_document;
pub mod toc;
pub mod watcher;
