//! The logic of a small desktop widget that shows how much of the allowances of three coding
//! services is used.
//!
//! The window, the network and the system calls belong to the program around this library. It
//! hands in what they returned, and the functions here say what to show and what to do next:
//!
//! - [`app`] holds the state: the answers of the services, the view, the frames.
//! - [`card`] lays out the full card and the compact line; [`palette`] colours them.
//! - [`menu`] lists the right-click menu and reads a choice from it.
//! - [`window`] places the window on the screen and above the taskbar.
//! - [`startup`] reads the flags and the settings, and registers the program to run at login.
//! - [`providers`] names the services and their meters.
//! - [`double`] orders double-precision numbers; [`text`] has the text operations.

pub mod app;
pub mod card;
pub mod double;
pub mod menu;
pub mod palette;
pub mod providers;
pub mod startup;
pub mod text;
pub mod window;
