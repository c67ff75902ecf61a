//! Conversion of delimiter-separated text into Markdown tables.
//!
//! Every row of the table has as many cells as the longest record of the
//! input has fields, so the width must be known before the first row is
//! written. The conversions in [`convert`] differ in how they come by that
//! width and in how much of the input they hold at a time:
//!
//! - [`csv_to_markdown`] keeps every record until the last one is read;
//! - [`csv_to_markdown_streaming`] copies the input and reads the copy
//!   twice;
//! - [`csv_to_markdown_streaming_seekable`] reads the input twice where it
//!   lies;
//! - [`csv_to_markdown_streaming_chunked`] lets a [`scanner`] estimate the
//!   width from the bytes while they are spilled, chunk by chunk.
//!
//! Records come from the reader of the `csv` crate, which [`reader`]
//! describes. What is made of them is stated in [`table`], [`render`] and
//! [`escape`], and proved of the code here.

pub mod cells;
pub mod config;
pub mod convert;
pub mod error;
pub mod escape;
pub mod reader;
pub mod render;
pub mod scanner;
pub mod size;
pub mod strategy;
pub mod table;
pub mod text;

pub use crate::config::{Config, HeaderAlignment};
pub use crate::convert::{
    csv_to_markdown, csv_to_markdown_streaming, csv_to_markdown_streaming_chunked,
    csv_to_markdown_streaming_seekable,
};
pub use crate::escape::escape_markdown_cell;
