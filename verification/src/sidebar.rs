//! The workspace sidebar.
pub mod action;
pub mod bindings;
pub mod context_menu;
pub mod infer;
pub mod label_laws;
pub mod labels;
pub mod line_laws;
pub mod lines;
pub mod list_laws;
pub mod menu_laws;
pub mod model;
pub mod pick;
pub mod pick_laws;
pub mod requests;
pub mod snippets;
pub mod status;
pub mod status_laws;
pub mod store;
pub mod store_laws;
pub mod ui;
pub mod ui_laws;
