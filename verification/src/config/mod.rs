//! The settings of the application, in four groups.

pub mod notify;
pub mod screensaver;
pub mod system;
pub mod watcher;

use vstd::prelude::*;
use crate::config::notify::NotifyConfig;
use crate::config::screensaver::{ScreensaverConfig, ScreensaverView};
use crate::config::system::{initial_system, SystemConfig, SystemView};
use crate::config::watcher::WatcherConfig;

verus! {

/// All settings of the application.
#[derive(Debug, PartialEq, Eq)]
pub struct AppConfig {
    /// Theme, language and the like.
    pub system: SystemConfig,
    /// Notifications.
    pub notify: NotifyConfig,
    /// The file-system watcher.
    pub watcher: WatcherConfig,
    /// The screensaver.
    pub screensaver: ScreensaverConfig,
}

/// The mathematical content of an [`AppConfig`].
pub struct AppConfigView {
    pub system: SystemView,
    pub notify: NotifyConfig,
    pub watcher: WatcherConfig,
    pub screensaver: ScreensaverView,
}

impl View for AppConfig {
    type V = AppConfigView;

    open spec fn view(&self) -> AppConfigView {
        AppConfigView {
            system: self.system@,
            notify: self.notify,
            watcher: self.watcher,
            screensaver: self.screensaver@,
        }
    }
}

impl Clone for AppConfig {
    fn clone(&self) -> (r: Self)
        ensures
            r == *self,
    {
        AppConfig {
            system: self.system.clone(),
            notify: self.notify,
            watcher: self.watcher,
            screensaver: self.screensaver.clone(),
        }
    }
}

impl Default for AppConfig {
    /// The defaults of all four groups.
    fn default() -> (c: AppConfig)
        ensures
            c@ == (AppConfigView {
                system: initial_system("light"@, "en-US"@),
                notify: NotifyConfig { is_granted: false, enable: false, mask: 0 },
                watcher: WatcherConfig { timeout: 3 },
                screensaver: ScreensaverView {
                    enable: false,
                    password: Seq::empty(),
                    is_locked: false,
                },
            }),
    {
        AppConfig {
            system: SystemConfig::default(),
            notify: NotifyConfig::default(),
            watcher: WatcherConfig::default(),
            screensaver: ScreensaverConfig::default(),
        }
    }
}

} // verus!
