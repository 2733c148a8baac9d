//! Tool configuration generators: each turns the color palette into the
//! configuration text of one tool, or rewrites that tool's configuration
//! to use the generated theme.
pub mod ghostty;
pub mod lazygit;
