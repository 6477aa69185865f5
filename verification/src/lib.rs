//! A blog front end's library: Markdown documents with front matter are
//! split, decoded and rendered to HTML with a table of contents; lists of
//! articles are filtered, searched and paged.
//!
//! Parsing Markdown and writing HTML is pulldown-cmark's work, parsing YAML
//! serde_yaml's, calendar and time zones chrono's. Everything else is
//! verified: each function's contract says what it returns.

pub mod api;
pub mod components;
pub mod front_matter;
pub mod metadata;
pub mod models;
pub mod pages;
pub mod render;
pub mod slug;
pub mod state;
pub mod text;
pub mod toc;
pub mod utils;
