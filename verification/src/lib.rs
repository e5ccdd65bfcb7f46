//! Interactive workspace launcher: the selection engine behind the terminal
//! interface, with its ranking, state machine and screen layout.

pub mod app;
pub mod config;
pub mod dispatch;
pub mod entry;
pub mod layout;
pub mod rank;
pub mod render;
pub mod shell;
pub mod text;
pub mod theme;
pub mod utils;
