//! A verified core for a Markdown previewer: the parse of a document with
//! pulldown-cmark, change detection between two
//! versions of a document, the render tree encoder, text search over the
//! rendered text, navigation history, the windows and what they show, their
//! menu bars and where their pages navigate, and
//! the application's handling of events, which answers each event with the
//! actions that its caller performs (`shiba`).

pub mod assets;
pub mod bytes;
pub mod cmark;
pub mod cli;
pub mod config;
pub mod links;
pub mod menu;
pub mod persistent;
pub mod preview;
pub mod process_singleton;
pub mod render;
pub mod renderer;
pub mod content;
pub mod dialog;
pub mod emoji;
pub mod events;
pub mod history;
pub mod sanitizer;
pub mod search;
pub mod serializer;
pub mod shiba;
pub mod text;
pub mod tree;
pub mod watcher;
pub mod window;
pub mod zoom;
