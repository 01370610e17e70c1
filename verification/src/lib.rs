//! Core logic of a Minecraft launcher: the sidebar tree of instances and
//! folders, keyboard navigation through it, accounts, auto-saving, list
//! editing, mod-list ordering and picking, version search, update checking
//! and the small formatting helpers of the interface.

pub mod about;
pub mod accounts;
pub mod autosave;
pub mod cli;
pub mod config;
pub mod create;
pub mod custom_jar;
pub mod format;
pub mod input;
pub mod instance;
pub mod mclogs;
pub mod menu;
pub mod message;
pub mod mods;
pub mod navigation;
pub mod notes;
pub mod package;
pub mod shortcut;
pub mod sidebar;
pub mod text;
pub mod order;
pub mod session;
pub mod theme;
pub mod update_check;
