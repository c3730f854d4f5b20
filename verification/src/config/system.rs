//! Settings of the application itself.

use vstd::prelude::*;
use vstd::string::StringExecFns;

verus! {

/// Theme, language and what closing the window does.
#[derive(Debug, PartialEq, Eq)]
pub struct SystemConfig {
    /// `light` or `dark`.
    pub theme: String,
    /// Whether the application starts with the system.
    pub auto_start: bool,
    /// What closing the window does: 0 exits, 1 hides to the tray.
    pub close_option: u8,
    /// How often the window was closed.
    pub close_cnt: u8,
    /// The limit of that count.
    pub close_limit: u8,
    /// `en-US` or `zh-CN`.
    pub language: String,
}

/// The mathematical content of a [`SystemConfig`].
pub struct SystemView {
    pub theme: Seq<char>,
    pub auto_start: bool,
    pub close_option: u8,
    pub close_cnt: u8,
    pub close_limit: u8,
    pub language: Seq<char>,
}

impl View for SystemConfig {
    type V = SystemView;

    open spec fn view(&self) -> SystemView {
        SystemView {
            theme: self.theme@,
            auto_start: self.auto_start,
            close_option: self.close_option,
            close_cnt: self.close_cnt,
            close_limit: self.close_limit,
            language: self.language@,
        }
    }
}

impl Clone for SystemConfig {
    fn clone(&self) -> (r: Self)
        ensures
            r == *self,
    {
        SystemConfig {
            theme: self.theme.clone(),
            auto_start: self.auto_start,
            close_option: self.close_option,
            close_cnt: self.close_cnt,
            close_limit: self.close_limit,
            language: self.language.clone(),
        }
    }
}

/// The settings of a fresh installation with the given theme and
/// language: no start with the system, closing exits, nothing counted yet,
/// and a limit of 50.
pub open spec fn initial_system(theme: Seq<char>, language: Seq<char>) -> SystemView {
    SystemView {
        theme,
        auto_start: false,
        close_option: 0,
        close_cnt: 0,
        close_limit: 50,
        language,
    }
}

impl SystemConfig {
    /// The settings of a fresh installation on a system with the theme
    /// `theme` and the language `language`.
    pub fn detected(theme: String, language: String) -> (c: SystemConfig)
        ensures
            c@ == initial_system(theme@, language@),
    {
        SystemConfig {
            theme,
            auto_start: false,
            close_option: 0,
            close_cnt: 0,
            close_limit: 50,
            language,
        }
    }
}

impl Default for SystemConfig {
    /// The settings of a fresh installation where the system tells
    /// nothing: the light theme and the language `en-US`.
    fn default() -> (c: SystemConfig)
        ensures
            c@ == initial_system("light"@, "en-US"@),
    {
        SystemConfig::detected(String::from_str("light"), String::from_str("en-US"))
    }
}

} // verus!
