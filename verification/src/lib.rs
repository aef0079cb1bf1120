//! Conversion of plain-text and lightweight-markdown documents into standalone
//! HTML documents.
//!
//! Text is modelled as a sequence of characters (`Seq<char>`), the view of
//! `str` and `String`. Every executable function states its result over that
//! model.

pub mod balance;
pub mod convert;
pub mod event;
pub mod format;
pub mod job;
pub mod lines;
pub mod link;
pub mod markup;
pub mod path;
pub mod settings;
pub mod tags;
pub mod text;
pub mod title;
