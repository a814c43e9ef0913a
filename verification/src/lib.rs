//! The verified core of a modeless text editor for terminals.

pub mod action;
pub mod area;
pub mod control;
pub mod draw;
pub mod editing;
pub mod encoding;
pub mod field;
pub mod files;
pub mod key;
pub mod laws_bars;
pub mod laws_control;
pub mod laws_edit;
pub mod laws_files;
pub mod laws_finding;
pub mod laws_flat;
pub mod laws_flow;
pub mod laws_forward;
pub mod laws_history;
pub mod laws_layout;
pub mod laws_moving;
pub mod laws_paint;
pub mod laws_prompts;
pub mod laws_redraw;
pub mod laws_render;
pub mod laws_saving;
pub mod laws_screen;
pub mod laws_search;
pub mod laws_selection;
pub mod laws_text;
pub mod laws_typing;
pub mod layout;
pub mod message;
pub mod moving;
pub mod outside;
pub mod prompts;
pub mod render;
pub mod screen;
pub mod search;
pub mod select;
pub mod state;
pub mod text;
pub mod undo;
