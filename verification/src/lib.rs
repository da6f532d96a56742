//! Price alerts with a cooldown, and recurring alerts on cron schedules.
//!
//! Prices are whole numbers of ticks and instants are whole seconds since the
//! Unix epoch, so every rule of the engine is stated over integers.

pub mod alerts;
pub mod band;
pub mod config;
pub mod cron;
pub mod db;
pub mod engine;
pub mod error;
pub mod laws;
pub mod model;
pub mod notification;
pub mod registry;
pub mod rows;
pub mod schedule;
