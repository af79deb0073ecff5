//! Verified core of a terminal dashboard for NATS servers: the number and
//! byte formatting, URL normalisation, the polled server state with its
//! sliding history windows, and the text the dashboard shows.

pub mod text;
pub mod format;
pub mod url;
pub mod model;
pub mod monitor;
pub mod view;
