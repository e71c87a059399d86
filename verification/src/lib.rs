//! Markdown to Typst conversion, with the header and footer bands, the
//! configuration layering and the page set-up that surround it.
pub mod text;
pub mod paths;
pub mod assets;
pub mod events;
pub mod convert;
pub mod compile;
pub mod config;
pub mod cli;
pub mod calendar;
