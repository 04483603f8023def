//! Workspace, pane and event bookkeeping of a terminal multiplexer.
//!
//! The library keeps the model that the GTK front end draws: the tab
//! manager with its workspaces and panels, the notification store, the
//! cache of terminal widgets keyed by panel id, and the decisions that the
//! window's actions and event loop take on them.

pub mod ids;
pub mod model;
pub mod notifications;
pub mod app;
pub mod window;
pub mod browser;
pub mod laws;
