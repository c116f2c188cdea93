//! What the windows show and what their controls do.

pub mod deed_laws;
pub mod forms;
pub mod labels;
pub mod laws;
pub mod main_view;
pub mod pages;
pub mod request_laws;
pub mod requests;
pub mod tray;
pub mod window_laws;
