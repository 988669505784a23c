//! Zahuyach - static site generator library.
//!
//! The library holds the logic of the build: how a document is split into
//! front matter and body, what is derived from it, how documents are grouped
//! by tag, category and date, which data every page is rendered with and
//! where every page goes. Reading and writing files is left to the caller.

pub mod cli;
pub mod commands;
pub mod config;
pub mod content;
pub mod context;
pub mod data;
pub mod deriver;
pub mod error;
pub mod generator;
pub mod includes;
pub mod loader;
pub mod render;
pub mod taxonomy;
pub mod templates;
pub mod text;
