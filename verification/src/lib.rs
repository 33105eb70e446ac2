//! A typed model of workflow definitions and of the histories of their
//! runs, and the translation between that model and the JSON documents of
//! a workflow engine.
//!
//! A document is read into a tree (`json`), and the tree into the model:
//! a definition with its states (`machine`, `step`, `definition`), a
//! history with its events (`history`, `details`, `payload`), and the lists
//! that a query returns (`envelope`). Timestamps are brought into one
//! canonical form on the way (`timestamp`, `calendar`, `decimal`). What is
//! wrong with a document is said by one error type (`error`); whether the
//! names in a definition refer to states that exist is looked at in a
//! second pass (`validate`). `reply` decides what a caller is answered.

pub mod calendar;
pub mod decimal;
pub mod definition;
pub mod details;
pub mod envelope;
pub mod error;
pub mod fields;
pub mod history;
pub mod json;
pub mod list;
pub mod machine;
pub mod payload;
pub mod reply;
pub mod step;
pub mod text;
pub mod timestamp;
pub mod validate;
