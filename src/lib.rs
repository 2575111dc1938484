//! A peer session orchestrator for two-player rollback netcode: the one-byte
//! input codec, the player handle registry, peer discovery, the session
//! configuration, and the per-tick delay line and prediction window.

use vstd::prelude::*;

pub mod actions;
pub mod config;
pub mod error;
pub mod input;
pub mod negotiator;
pub mod plan;
pub mod registry;
pub mod session;
