//! Diagnostic reports for compilers: a message with a severity, optionally
//! attached to a place in a source file, laid out as styled text with the
//! offending line and a cursor under the offending character.
//!
//! A [`File`] holds a path and a text. A [`Location`] is a byte offset into
//! the text of a file, from which line and column follow. A [`Report`] is a
//! message of some [`Severity`], with or without a location. A [`Renderer`]
//! lays reports out as text, decorated as its [`Styles`] say.

pub mod escape;
pub mod file;
pub mod position;
pub mod render;
pub mod report;
pub mod snippet;
pub mod styles;
pub mod text;
pub mod width;

pub use file::{File, FileView, Location, LocationView};
pub use render::{Renderer, RendererView};
pub use report::{Report, ReportView, Severity};
pub use styles::{Color, Decoration, Styles};
