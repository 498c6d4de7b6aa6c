//! Core of a terminal file manager: the asynchronous preview pipeline
//! (cancellation tokens, the async widget container, the previewer state
//! machine, external previewer resolution and the subprocess registry),
//! together with the widget containers and logging types around it.

pub mod asyncwidget;
pub mod bookmarks;
pub mod coordinates;
pub mod hbox;
pub mod fail;
pub mod files;
pub mod foldview;
pub mod preview;
pub mod paths;
pub mod process;
pub mod strutil;
pub mod tabview;
pub mod term;
pub mod token;
