//! A session timer: an ordered run of timed sessions, the state machine that
//! counts them down, and the control protocol that steers it.
//!
//! The library decides and computes; it neither waits nor reads nor writes.
//! A program around it runs the loop: it asks [`app::App::prompt`] what to do
//! next, waits for a tick or a command, hands what happened to
//! [`app::App::step`], and carries out the [`app::Action`] it gets back.
//!
//! - [`session_id`]: the cursor over the sessions of a run.
//! - [`app`]: the scheduler and its events.
//! - [`timer`]: the state of the timer, its ticks, and the sinks it writes to.
//! - [`session`], [`token`], [`time_format`]: sessions and how they are shown.
//! - [`config`]: how a run is built from what a configuration file gives.
//! - [`command`], [`escape`]: the commands of a client.
//! - [`time`], [`text`], [`table`]: spans of time, text, and tables by name.

pub mod app;
pub mod command;
pub mod config;
pub mod escape;
pub mod session;
pub mod session_id;
pub mod table;
pub mod text;
pub mod time;
pub mod time_format;
pub mod timer;
pub mod token;

pub use command::{
    get_socket_path, Command, FetchArgs, FinishArgs, JumpArgs, ListenArgs, NextArgs, PauseArgs,
    PrevArgs, ReloadArgs, ResumeArgs, ToggleArgs,
};
