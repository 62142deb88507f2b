//! Pinentry for Zellij: the Assuan protocol engine and the pinentry state,
//! the terminal dialog, the Zellij plugin's state machine, the dialog's
//! size, layout and painting, and the ANSI back end, with their contracts.

pub mod assuan;
pub mod backend;
pub mod cli;
pub mod convert;
pub mod decimal;
pub mod embed;
pub mod handler;
pub mod percent;
pub mod plugin;
pub mod protocol;
pub mod secret;
pub mod state;
pub mod symbol;
pub mod text;
pub mod tty;
pub mod ui;
pub mod zellij;
