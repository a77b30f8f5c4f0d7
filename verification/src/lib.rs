//! A small knowledge base: translated interface strings, language detection,
//! page records and full-text search ranking, with their contracts proved.

pub mod i18n;
pub mod interface_texts;
pub mod json;
pub mod lang;
pub mod ranking;
pub mod search;
pub mod text;
pub mod wiki;
