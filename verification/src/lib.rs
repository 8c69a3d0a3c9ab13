//! Decisions and text handling behind a desktop launcher of development
//! browsers with a KeePass vault.
pub mod text;
pub mod vault;
pub mod inject;
pub mod json;
pub mod cdp;
pub mod bidi;
pub mod browser;
pub mod project;
pub mod clipboard;
pub mod app;
