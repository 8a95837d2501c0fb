//! The level editor: inks, pen, drawing actions and their history.

pub mod ink;
pub mod pen;
pub mod drawing_action;
pub mod drawing_history;
pub mod inkwell;
pub mod level_editor;
pub mod pen_panel;
