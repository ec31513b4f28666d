//! Coordination engine of a terminal dashboard that browses a catalog of
//! download mirrors: key bindings, focus state machine, the shared
//! application aggregate and the catalog model it works on.

pub mod actions;
pub mod app;
pub mod archlinux;
pub mod clock;
pub mod config;
pub mod export;
pub mod io;
pub mod key;
pub mod state;
pub mod text;
