//! A fixed 96×54 character canvas and the screen logic drawn on it:
//! the cell grid with wide-character handling, text lines with ellipsis,
//! the render plan, page routing, save-slot timelines, the pixel editor,
//! character creation and the status bar.

pub mod width;
pub mod canvas;
pub mod text;
pub mod render;
pub mod router;
pub mod save;
pub mod fmt;
pub mod hex;
pub mod pixel_editor;
pub mod character_creation;
pub mod main_menu;
pub mod status_bar;
pub mod save_load;
