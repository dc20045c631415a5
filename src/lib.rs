//! Markdown to Typst as a pipeline of event-stream transformers.
//!
//! Source events (as a Markdown parser produces them, [`markdown`]) pass
//! through per-construct converters ([`convert`], [`images`]), a paragraph
//! merge ([`merge`]), and a serializer ([`markup`]) that writes destination
//! events ([`typst`]) as markup text. Each stage is specified over views in
//! `Seq<char>`; [`markup_model`] holds the serializer's state machine, and
//! [`laws`] states properties that relate the stages.

pub mod text;
pub mod typst;
pub mod link;
pub mod markup_model;
pub mod markup;
pub mod markdown;
pub mod convert;
pub mod images;
pub mod merge;
pub mod check;
pub mod pipeline;
pub mod laws;
