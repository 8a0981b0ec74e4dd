//! Building blocks of a Hyprland settings editor: the model of its settings,
//! the Lua text that the settings produce, and the small line formats that the
//! editor's rows read and write.
pub mod text;
pub mod numbers;
pub mod dispatch;
pub mod blocks;
pub mod config;
pub mod luafile;
pub mod tables;
pub mod entries;
pub mod color;
pub mod rules;
pub mod files;
pub mod rows;
pub mod clients;
pub mod color_laws;
pub mod lua_laws;
pub mod action_laws;
pub mod laws;
pub mod row_laws;
pub mod anim_laws;
pub mod input_laws;
