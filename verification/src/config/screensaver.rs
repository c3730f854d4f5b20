//! Settings of the screensaver.

use vstd::prelude::*;

verus! {

/// How the screensaver is set up.
#[derive(Debug, PartialEq, Eq)]
pub struct ScreensaverConfig {
    /// Whether the screensaver is switched on.
    pub enable: bool,
    /// The password that unlocks it.
    pub password: String,
    /// Whether it is locked right now.
    pub is_locked: bool,
}

/// The mathematical content of a [`ScreensaverConfig`].
pub struct ScreensaverView {
    pub enable: bool,
    pub password: Seq<char>,
    pub is_locked: bool,
}

impl View for ScreensaverConfig {
    type V = ScreensaverView;

    open spec fn view(&self) -> ScreensaverView {
        ScreensaverView { enable: self.enable, password: self.password@, is_locked: self.is_locked }
    }
}

impl Clone for ScreensaverConfig {
    fn clone(&self) -> (r: Self)
        ensures
            r == *self,
    {
        ScreensaverConfig {
            enable: self.enable,
            password: self.password.clone(),
            is_locked: self.is_locked,
        }
    }
}

impl Default for ScreensaverConfig {
    /// Switched off, no password, not locked.
    fn default() -> (c: ScreensaverConfig)
        ensures
            c@ == (ScreensaverView { enable: false, password: Seq::empty(), is_locked: false }),
    {
        ScreensaverConfig { enable: false, password: String::new(), is_locked: false }
    }
}

} // verus!
