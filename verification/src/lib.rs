//! Verified core of COSMIC ORDER: configuration formats, theme-file
//! generators and the decision logic of the settings application.
pub mod text;
pub mod sort;
pub mod colors;
pub mod power;
pub mod screensaver_config;
pub mod bundled_themes;
pub mod paths;
pub mod generators;
pub mod hooks;
pub mod idle;
pub mod theme_config;
pub mod pages;
pub mod compositor;
pub mod screensaver_page;
pub mod screensaver_view;
pub mod logos;
pub mod wizard;
pub mod tool_sync;
pub mod themes_page;
pub mod cli;
pub mod config;
pub mod cosmic_idle;
pub mod wallpaper_config;
pub mod session_lock;
pub mod applet;
