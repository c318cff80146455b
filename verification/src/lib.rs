//! Birthday notification engine.
//!
//! Validates and stores birthday registrations, determines which users are
//! due for a greeting on a given day, and drives a re-runnable greeting
//! sweep that sends at most one greeting per user per year.

pub mod command;
pub mod date_text;
pub mod digits;
pub mod models;
pub mod record;
pub mod register;
pub mod sweep;
pub mod text;
pub mod webhook;
