//! Detection of the Linux desktop session: which display server runs, which
//! session sits at the machine, and how the surrounding commands are built and
//! their answers read.

pub mod command;
pub mod desktop;
pub mod detect;
pub mod display_server;
pub mod fields;
pub mod home;
pub mod loginctl;
pub mod message;
pub mod query;
pub mod seat;
pub mod session;
pub mod status;
pub mod text;
pub mod wayland;
