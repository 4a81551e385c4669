//! Verified core of `portside`, a terminal work-session tracker.

pub mod action;
pub mod calendar;
pub mod commands;
pub mod components;
pub mod config;
pub mod control;
pub mod errors;
pub mod fixed_queue;
pub mod history;
pub mod media;
pub mod models;
pub mod session_filter;
pub mod text;
pub mod theme;
