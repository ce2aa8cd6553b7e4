//! The decision and formatting logic behind the panes and screens of a
//! terminal client for the Music Player Daemon: how song properties are
//! formatted and matched, how focus moves between panes, how the queue is
//! reordered, how search inputs cycle, and what each browser does with the
//! item under the cursor.
pub mod text;
pub mod song;
pub mod property;
pub mod seq_lemmas;
pub mod geometry;
pub mod tab_screen;
pub mod queue_header;
pub mod search;
pub mod screens;
pub mod queue;
pub mod panes;
pub mod status;
pub mod sorted;
pub mod preview;
pub mod album_groups;
pub mod tag_browser;
pub mod spans;
pub mod lyrics;
pub mod logs;
pub mod tabs;
pub mod volume;
pub mod header;
pub mod progress_bar;
pub mod line;
pub mod styled_line;
