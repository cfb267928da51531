//! Process, service, container and workspace management core.
pub mod errors;
pub mod events;
pub mod text;
pub mod platform;
pub mod services;
pub mod configuration;
pub mod workspaces;
pub mod screens;
pub mod docker;
pub mod ports;
pub mod ordering;
pub mod processes;
pub mod filters;
pub mod servers;
pub mod tables;
pub mod history;
pub mod app;
