//! Core of a static-site blog backend: an annotation scanner that extracts
//! structured metadata from post sources while rewriting the text, a render
//! pipeline that post-processes generated HTML, and the pure decision logic of
//! the site-generation run.

pub mod auth;
pub mod config;
pub mod error;
pub mod htmlrw;
pub mod pipeline;
pub mod post;
pub mod render;
pub mod rewrite;
pub mod scanner;
pub mod strutil;
pub mod utils;
