//! Verified core of a clipboard-history manager: the search index and its
//! journal, search and ranking, storage layout, summaries and formatting.

pub mod text;
pub mod json;
pub mod layout;
pub mod model;
pub mod sort;
pub mod index;
pub mod search;
pub mod selector;
pub mod numfmt;
pub mod strsort;
pub mod digest;
pub mod item;
pub mod api_urls;
pub mod settings;
pub mod cli;
pub mod timefmt;
pub mod lists;
pub mod snapshot;
pub mod plugins;
pub mod json_items;
pub mod legacy;
pub mod display;
pub mod api;
pub mod store;
pub mod config;
pub mod service;
pub mod unsupported;
pub mod stats;
pub mod tui;
pub mod web;
pub mod preview;
