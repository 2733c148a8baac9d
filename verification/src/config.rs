//! The application's own settings: the page shown last and the window
//! size, kept across runs.
use vstd::prelude::*;
use crate::pages::PageId;
use crate::text::{string_from, push_str};

verus! {

/// Application settings.
#[derive(Clone, Copy, Debug, PartialEq, Eq, Structural)]
pub struct Config {
    pub active_page: PageId,
    pub window_width: u32,
    pub window_height: u32,
}

impl Default for Config {
    fn default() -> (c: Config)
        ensures
            c == (Config { active_page: PageId::Visuals, window_width: 0, window_height: 0 }),
    {
        Config { active_page: PageId::Visuals, window_width: 0, window_height: 0 }
    }
}

impl Config {
    /// Remember the window size seen last, on exit: only a real size
    /// (both sides non-zero) that differs from the stored one is taken;
    /// returns whether the settings changed and must be saved.
    pub fn remember_window_size(&mut self, width: u32, height: u32) -> (changed: bool)
        ensures
            changed == (width > 0 && height > 0 && (old(self).window_width != width
                || old(self).window_height != height)),
            *final(self) == (if changed {
                Config { window_width: width, window_height: height, ..*old(self) }
            } else {
                *old(self)
            }),
    {
        if width > 0 && height > 0 && (self.window_width != width || self.window_height != height) {
            self.window_width = width;
            self.window_height = height;
            true
        } else {
            false
        }
    }

    /// Remember the page the user navigated to.
    pub fn set_active_page(&mut self, page: PageId)
        ensures
            *final(self) == (Config { active_page: page, ..*old(self) }),
    {
        self.active_page = page;
    }
}

/// The page opened at start-up: the one asked for on the command line,
/// else the one shown last.
pub fn start_page(requested: Option<PageId>, config: &Config) -> (p: PageId)
    ensures
        p == match requested {
            Some(r) => r,
            None => config.active_page,
        },
{
    match requested {
        Some(r) => r,
        None => config.active_page,
    }
}

/// Errors of reading or writing the settings.
#[derive(Debug)]
pub enum ConfigError {
    Load(String),
    Save(String),
}

impl ConfigError {
    /// The error's text.
    pub fn message(&self) -> (s: String)
        ensures
            s@ == match self {
                ConfigError::Load(e) => "Failed to load configuration: "@ + e@,
                ConfigError::Save(e) => "Failed to save configuration: "@ + e@,
            },
    {
        let (head, e) = match self {
            ConfigError::Load(e) => ("Failed to load configuration: ", e),
            ConfigError::Save(e) => ("Failed to save configuration: ", e),
        };
        let mut s = string_from(head);
        push_str(&mut s, e.as_str());
        s
    }
}

} // verus!
