//! An incremental compilation cache: named source artifacts go in, compiled
//! outputs for the browser and for the server come out, and nothing is
//! compiled twice while neither the source nor the parameters have changed.
//!
//! [`Files`] is the interface of the cache and [`SalsaToastDatabaseStruct`]
//! the database behind it. What its operations do is said over the state
//! machine in [`model`], and what follows for every sequence of writes and
//! queries is proved in [`laws`].

pub mod assoc;
pub mod database;
pub mod error;
pub mod import_map;
pub mod input_store;
pub mod laws;
pub mod memo_table;
pub mod model;
pub mod query_key;
pub mod revision;
pub mod rules;
pub mod text;

pub use database::{Files, SalsaToastDatabaseStruct};
pub use error::QueryError;
pub use import_map::ImportMap;
pub use input_store::{InputEntry, InputStore};
pub use memo_table::{MemoEntry, MemoTable};
pub use query_key::QueryKey;
pub use revision::Revision;
pub use rules::{js_for_browser, js_for_server, Evaluation};
pub use text::decode_text;
