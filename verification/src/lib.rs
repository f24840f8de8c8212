pub mod decimal;
pub mod format;
pub mod model;
pub mod snapshot;
pub mod text;
pub mod wrap;
pub mod editor;
pub mod keys;
pub mod tui;
pub mod config;
pub mod context;
pub mod store;
pub mod herdr;
pub mod annotation;
pub mod clipboard;
pub mod review;
pub mod capture;
pub mod layout;
pub mod records;
