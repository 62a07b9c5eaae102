//! A static site generator's build pipeline: content and frontmatter
//! parsing, template registry and helpers, an HTML minifier, artifact
//! generation (sitemap, feed, robots), build orchestration, and the
//! debounce filter of the filesystem watch loop.

pub mod artifacts;
pub mod builder;
pub mod cli;
pub mod config;
pub mod context;
pub mod date;
pub mod error;
pub mod frontmatter;
pub mod helpers;
pub mod json;
pub mod meta;
pub mod minify;
pub mod template;
pub mod text;
pub mod watcher;
pub mod yaml;
