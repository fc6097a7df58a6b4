//! The logic of a desktop application that drives the Mihomo proxy core: its
//! settings and profiles, the core's control interface, downloads of profiles,
//! and what the window shows. Input and output are left to the caller, which
//! carries out what the functions here decide and hands back what came of it.
pub mod api;
pub mod config;
pub mod controller;
pub mod files;
pub mod monitor;
pub mod number;
pub mod path;
pub mod profiles;
pub mod rate;
pub mod settings;
pub mod sidecar;
pub mod sorting;
pub mod startup;
pub mod subscription;
pub mod text;
pub mod traffic;
pub mod ui;
