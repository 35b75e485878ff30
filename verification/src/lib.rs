//! Sticky windows, a stage and scratchpads for the niri compositor.
//!
//! This crate decides and performs nothing: the operations of the daemon
//! ([`business::operation`]) and the commands of the command line
//! ([`cli::advance`]) say what is to be done, and are started again with one
//! more answer (see [`dialogue`]).
#![allow(unused_imports)]

pub mod action;
pub mod arrangement;
pub mod business;
pub mod cli;
pub mod config;
pub mod daemon;
pub mod dialogue;
pub mod document;
pub mod error;
pub mod json;
pub mod lists;
pub mod menu;
pub mod niri;
pub mod pinning;
pub mod promises;
pub mod protocol;
pub mod state;
pub mod state_store;
pub mod tables;
pub mod text;
