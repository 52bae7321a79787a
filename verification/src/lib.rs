//! Verified core of Open CAD Studio: UI language selection, dialog titles and
//! texts, and the text handling of the SmartPlant `.pid` importer.
pub mod text;
pub mod pid;
pub mod i18n;
pub mod modal;
pub mod order;
