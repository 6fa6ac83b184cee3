//! Visibility-driven playback control for a wallpaper renderer.
//!
//! The renderer is paused while the desktop is mostly covered by windows and
//! resumed once enough of it shows again. This crate holds the rules: how a
//! set of per-monitor samples becomes a percentage, when a percentage counts
//! as a crossing of the threshold, which command a crossing gives rise to, and
//! what the controller remembers of the commands it issued.
//!
//! - [`percent`] and [`sample`]: samples, the allow-list, percentages.
//! - [`wallpaper`]: the playback controller and the renderer's command line.
//! - [`monitor`]: the monitoring session, from start to stop.
//! - [`guarantees`]: what holds of every session.
//! - [`channel`]: the hand-off from the visibility callback to the session.
//! - [`cli`], [`install`], [`instances`]: the program's settings, its
//!   installation, and its other running instances.
//! - [`text`]: trimming, splitting and numbers in text.
//!
//! Nothing here starts a process, touches a file or waits: the program
//! around this crate does, and hands in what it found.

pub mod channel;
pub mod cli;
pub mod guarantees;
pub mod install;
pub mod instances;
pub mod monitor;
pub mod percent;
pub mod sample;
pub mod text;
pub mod wallpaper;
