//! Game logic of the OpenWilly player: parts database, car building, scene
//! scripts, dialogs, quest flags, save state and UI helpers.

pub mod text;
pub mod i18n;
pub mod scene_script;
pub mod dialog;
pub mod parts_db;
pub mod json;
pub mod parts_json;
pub mod save;
pub mod sprite;
pub mod build_car;
pub mod cursor;
pub mod toolbox;
pub mod scene;
pub mod dev_menu;
pub mod drag_drop;
pub mod scenes;
pub mod dashboard;
pub mod game_rules;
pub mod driving;
pub mod scene_flow;
pub mod menu;
pub mod game_files;
pub mod keys;
pub mod scene_handler;
pub mod script_run;
pub mod cast;
pub mod scene_layout;
pub mod scene_load;
pub mod transition;
pub mod scene_entry;
