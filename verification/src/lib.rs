//! Terminal dashboard core: an escape-sequence aware text pipeline and a
//! pane layout and focus engine.

pub mod action;
pub mod ansi;
pub mod ansi_color;
pub mod event;
pub mod features;
pub mod filter;
pub mod layout;
pub mod list;
pub mod pane;
pub mod paragraph;
pub mod pod;
pub mod rect;
pub mod related;
pub mod span;
pub mod style;
pub mod tab;
pub mod table;
pub mod text;
pub mod util;
pub mod view_id;
pub mod widget;
pub mod window;
