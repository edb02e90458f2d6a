//! A listing page of river trips: rows of the `trips` relation are decoded
//! into records, ordered by the key that the request asks for, handed to the
//! template engine and framed as a gateway response.

pub mod config;
pub mod context;
pub mod engine;
pub mod order;
pub mod page;
pub mod query;
pub mod record;
pub mod text;
pub mod utf8_order;

pub use config::{Config, Transport};
pub use context::RenderContext;
pub use order::{sort_trips, SortKey};
pub use page::{
    page_context, sort_page_handler, PageError, PageTemplate, RenderError, TemplateError,
};
pub use record::{decode_rows, Cell, Column, DecodeError, FromRowError, RawRow, Trip};
