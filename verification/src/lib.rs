//! Verified core logic of the FCD file manager: the window layout and the
//! file panel with its keys and events, file listing filters and sort
//! orders, the fuzzy finder's ranking, command templates, glob translation,
//! archive path mapping, bookmarks, directory scans, copy and move jobs and
//! their stored records, interrupted jobs, the text, hex and directory
//! viewers, line editing, and text layout.

pub mod strings;
pub mod stat;
pub mod template;
pub mod paths;
pub mod archive_mounter;
pub mod bookmarks;
pub mod database;
pub mod names;
pub mod fnmatch;
pub mod text_view;
pub mod hex_view;
pub mod input;
pub mod tilde_layout;
pub mod cp_mv;
pub mod rm;
pub mod dirscan;
pub mod entry;
pub mod shutil;
pub mod panel;
pub mod fzf;
pub mod command_template;
pub mod line_view;
pub mod layout;
pub mod jobs;
pub mod cp_mv_job;
pub mod cp_mv_entry;
pub mod panel_events;
pub mod report;
pub mod dialogs;
pub mod command_bar;
