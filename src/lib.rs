//! Document model and update engine of a blog post editor.
//!
//! The editor keeps a working copy of a post (title, markdown body, summary,
//! tags, image location and publication time), converts it to and from the
//! persisted document, and reacts to editing events through a single
//! state-transition function that keeps the markdown preview in step with
//! the body text.

pub mod text;
pub mod clock;
pub mod document;
pub mod editor;
