//! Verified core of an rclone mount manager: the rclone.conf document model,
//! id derivation, source schemas, backend feature tables and the pure parts of
//! applying a batch of source/mount edits.
pub mod text;
pub mod error;
pub mod rclone_config;
pub mod config_laws;
pub mod section_laws;
pub mod text_laws;
pub mod mount;
pub mod unit_writer;
pub mod naming;
pub mod str_map;
pub mod settings_json;
pub mod source;
pub mod source_laws;
pub mod backend_features;
pub mod feature_laws;
pub mod source_schema;
pub mod schema_laws;
pub mod backend;
pub mod override_laws;
pub mod blob_laws;
pub mod blob_parse_laws;
pub mod controller;
pub mod credentials;
pub mod oauth_credentials;
pub mod store;
pub mod rclone_cli;
pub mod rclone_config_driver;
