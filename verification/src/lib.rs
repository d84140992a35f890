//! Polaris: connection profiles, settings and translation catalogs for an
//! EasyTier mesh-VPN client.
pub mod autostart;
pub mod config;
pub mod dialog;
pub mod elevate;
pub mod engine;
pub mod i18n;
pub mod json;
pub mod logging;
pub mod text;
pub mod tray;
pub mod ui;
