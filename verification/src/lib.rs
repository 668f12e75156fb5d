//! The plugin host of an agent, without the engine that runs its plugins.
//!
//! Plugins are Janet programs. They speak to the host through the functions
//! and variables of the harness, and the host calls their handlers. This crate
//! holds the rules of that conversation: what each function of the harness
//! does, what the host reads back, which source the engine is given, and what
//! its answers mean. The engine itself stands outside. It evaluates source, it
//! hands calls of harness functions to [`harness::Harness::call_named`], and
//! its answers come back as [`reply::Reply`].
//!
//! - [`text`], [`order`] and [`value`] hold texts and the values of plugin code.
//! - [`escape`], [`wire`] and [`rows`] hold the format of the queues.
//! - [`queues`], [`tree`], [`registry`] and [`slots`] hold what plugins write.
//! - [`ops`], [`harness`] and [`prelude`] hold the functions that they call.
//! - [`sources`] and [`reply`] hold what the engine is given and answers.
//! - [`hooks`], [`manager`], [`dispatch`], [`invoke`], [`loader`] and [`render`]
//!   hold what the host does with plugins.
//! - [`provider`], [`session`], [`json`], [`nrepl`] and [`notebook`] hold what
//!   stands beside it.
use vstd::prelude::*;

pub mod dispatch;
pub mod escape;
pub mod harness;
pub mod hooks;
pub mod invoke;
pub mod json;
pub mod loader;
pub mod manager;
pub mod notebook;
pub mod nrepl;
pub mod ops;
pub mod order;
pub mod prelude;
pub mod provider;
pub mod queues;
pub mod registry;
pub mod render;
pub mod reply;
pub mod rows;
pub mod session;
pub mod slots;
pub mod sources;
pub mod text;
pub mod tree;
pub mod value;
pub mod wire;

verus! {

} // verus!
