//! Directory listings: entries are collected, filtered, ordered and turned
//! into the text of table columns.

pub mod columns;
pub mod date;
pub mod entry;
pub mod filter;
pub mod listing;
pub mod order;
pub mod owner;
pub mod size;
pub mod sort;
pub mod table;
pub mod text;
