//! FingerBridge core library.

pub mod autostart;
pub mod bridge_api;
pub mod cli;
pub mod config;
pub mod dashboard;
pub mod doctor;
pub mod domain;
pub mod findings;
pub mod forwarder;
pub mod hrms;
pub mod install;
pub mod jobs;
pub mod json;
pub mod json_text;
pub mod logging;
pub mod mock;
pub mod placeholders;
pub mod ports;
pub mod protocol;
pub mod receiver;
pub mod rotation;
pub mod scan_args;
pub mod scanner;
pub mod senseface;
pub mod services;
pub mod setup;
pub mod summary;
pub mod sync;
pub mod text;
pub mod update;
pub mod zk_client;
