//! Widgets for shell scripts: option parsing, table data, layout and key
//! handling decisions, each stated by its contract.

pub mod error;
pub mod text;
pub mod style;
pub mod table;
pub mod json;
pub mod widget;
pub mod block;
pub mod gauge;
pub mod confirm;
pub mod input;
