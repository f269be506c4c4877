//! The user's settings: destination slots, theme, language and window
//! geometry, with their defaults.
use vstd::prelude::*;
use std::collections::HashMap;
use crate::naming::decimal_string;

verus! {

/// The colour theme.
#[derive(Clone, Copy, Debug, PartialEq, Eq, Structural)]
pub enum Theme {
    System,
    Light,
    Dark,
}

impl Default for Theme {
    fn default() -> (r: Theme)
        ensures
            r == Theme::System,
    {
        Theme::System
    }
}

/// The main window's size and, once known, its position.
#[derive(Clone, Copy, Debug, PartialEq, Eq, Structural)]
pub struct WindowSettings {
    pub width: u32,
    pub height: u32,
    pub x: Option<i32>,
    pub y: Option<i32>,
}

impl Default for WindowSettings {
    fn default() -> (r: WindowSettings)
        ensures
            r == (WindowSettings { width: 1024, height: 768, x: None, y: None }),
    {
        WindowSettings { width: 1024, height: 768, x: None, y: None }
    }
}

/// The number of destination slots.
pub const DESTINATION_SLOTS: u64 = 5;

/// All settings. A destination slot is keyed by its number, `"1"` to
/// `"5"`, and holds a folder once one is assigned.
#[derive(Clone, Debug)]
pub struct Settings {
    pub destinations: HashMap<String, Option<String>>,
    pub theme: Theme,
    pub language: String,
    pub window: WindowSettings,
}

impl Default for Settings {
    /// Five empty destination slots, the system theme, Japanese, and the
    /// default window.
    fn default() -> (r: Settings)
        ensures
            r.theme == Theme::System,
            r.language@ == "ja"@,
            r.window == (WindowSettings { width: 1024, height: 768, x: None, y: None }),
    {
        let mut destinations: HashMap<String, Option<String>> = HashMap::new();
        let mut i: u64 = 1;
        while i <= DESTINATION_SLOTS
            invariant
                1 <= i <= DESTINATION_SLOTS + 1,
            decreases DESTINATION_SLOTS + 1 - i,
        {
            destinations.insert(decimal_string(i), None);
            i = i + 1;
        }
        Settings {
            destinations,
            theme: Theme::default(),
            language: String::from_str("ja"),
            window: WindowSettings::default(),
        }
    }
}

} // verus!
