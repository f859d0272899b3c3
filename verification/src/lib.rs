//! Core logic of the LogDump crash-capture and log-collection utility.

pub mod notify;
pub mod order;
pub mod num;
pub mod bitness;
pub mod cli;
pub mod clock;
pub mod collect;
pub mod config;
pub mod diskguard;
pub mod gui;
pub mod health;
pub mod logger;
pub mod monitor;
pub mod paths;
pub mod pe;
pub mod procdump;
pub mod retention;
pub mod secrets;
pub mod services;
pub mod stability;
pub mod task;
pub mod text;
pub mod winpath;
