//! Reading wiki dump archives: the shard index over archive file names, and the
//! streaming parser that turns a dump's tag events into pages and revisions.
pub mod dump;
pub mod page;
pub mod parser;
pub mod revision;
pub mod text;

pub use dump::{Dump, DumpStore};
pub use page::Page;
pub use parser::{pages_from_events, PageParser, XmlEvent};
pub use revision::{Revision, Timestamp};
