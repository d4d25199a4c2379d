//! A small, stateful markdown-to-HTML rendering service: a bounded
//! memoization layer in front of an external markdown parser and HTML
//! serializer, plus a single-pass rewrite that tags fenced code blocks
//! with a language class for a downstream syntax highlighter.

pub mod cache;
pub mod events;
pub mod pipeline;
pub mod render;
pub mod rewrite;

pub use render::FastRenderCore;
pub use render::RenderError;
