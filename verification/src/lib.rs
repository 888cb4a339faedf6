pub mod text;
pub mod keys;
pub mod keymap;
pub mod style;
pub mod model;
pub mod mode;
pub mod config;
pub mod defaults;
pub mod components;
pub mod error;
pub mod crypto;
pub mod auth;
pub mod action;
pub mod dates;
pub mod order;
pub mod cycle;
pub mod view;
pub mod store_worker;
pub mod tui;
pub mod app;
pub mod run;
pub mod app_laws;
pub mod dispatch_laws;
pub mod home_laws;
pub mod text_laws;
pub mod form_laws;
pub mod config_laws;
pub mod net_laws;
pub mod editing_laws;
pub mod screen_laws;
pub mod command_laws;
pub mod crypto_laws;
pub mod date_laws;
pub mod net;
pub mod tasks;
pub mod doc_history;
pub mod doc_value;
pub mod list_doc;
pub mod table;
pub mod db;
pub mod session;
pub mod listing;
pub mod listing_laws;
pub mod store;
pub mod store_laws;
pub mod db_laws;
pub mod edit_laws;
pub mod worker;
pub mod worker_laws;
pub mod sync;
pub mod cli;
