//! Verified core of the DSH++ desktop control center.
pub mod text;
pub mod workspace;
pub mod config;
pub mod proxy;
pub mod update;
pub mod extension;
pub mod service;
pub mod mca;
pub mod profile;
pub mod shim;
pub mod cli;
pub mod session;
pub mod wide;
pub mod secret;
pub mod paths;
pub mod instance;
pub mod runtime;
pub mod settings;
