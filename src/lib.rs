//! Screenshot synchronisation: a watched directory feeds a durable queue whose
//! items are transferred to one remote host, with a de-duplicated history.
//!
//! - `config`: transfer profiles, their time windows, and the active profile.
//! - `database`: the queue of pending transfers and the history of done ones.
//! - `watcher`: what a file event adds to the queue.
//! - `transfer`: the per-item steps of the transfer processor.
//! - `notification`: which desktop notifications go out.
//! - `dashboard`: the HTML page over the history.
//! - `utils`, `text`: file names and character-level helpers.

pub mod config;
pub mod dashboard;
pub mod database;
pub mod notification;
pub mod text;
pub mod transfer;
pub mod utils;
pub mod watcher;
