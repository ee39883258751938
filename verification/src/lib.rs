//! Window-management, input, gaming, theming and control-protocol logic of the
//! ArchonSync desktop, with its behaviour stated as contracts.

pub mod backend;
pub mod cli;
pub mod color;
pub mod compositor;
pub mod config;
pub mod gaming;
pub mod ipc;
pub mod keybind;
pub mod keymap;
pub mod layout;
pub mod lock;
pub mod rng;
pub mod shell;
pub mod text;
pub mod theme;
pub mod ui;
pub mod widgets;
pub mod window;
pub mod workspace;
