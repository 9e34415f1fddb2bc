//! Core of a terminal viewer over a remote log store: a paginated,
//! filterable list reused by every screen, the screens' key handling, and
//! the navigator that moves between screens.
//!
//! Screens never fetch or write anything themselves. They hand back a
//! `FetchRequest` or a file to save; the loop around them performs it and
//! hands the answer back (`App::receive`, `App::finish_save`).

pub mod clock;
pub mod event_search;
pub mod events;
pub mod export;
pub mod fetch;
pub mod group_events;
pub mod levels;
pub mod list;
pub mod main_screen;
pub mod model;
pub mod screen;
pub mod text;
pub mod viewer;
