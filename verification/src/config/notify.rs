//! Settings of notifications.

use vstd::prelude::*;

verus! {

/// Whether and of what the user is notified.
#[derive(Clone, Copy, Debug, PartialEq, Eq, Structural)]
pub struct NotifyConfig {
    /// Whether the system lets the application notify.
    pub is_granted: bool,
    /// Whether notifications are switched on.
    pub enable: bool,
    /// One bit per kind of notification: 1 switches the kind on.
    pub mask: u32,
}

impl Default for NotifyConfig {
    /// Nothing granted, nothing switched on.
    fn default() -> (c: NotifyConfig)
        ensures
            c == (NotifyConfig { is_granted: false, enable: false, mask: 0 }),
    {
        NotifyConfig { is_granted: false, enable: false, mask: 0 }
    }
}

/// What the user can be notified of.
#[derive(Clone, Copy, Debug, PartialEq, Eq, Structural)]
pub enum Notice {
    /// An artifact was made. Its bit in the mask is bit 0.
    Created,
    /// A run failed. Its bit in the mask is bit 1.
    Failed,
}

impl Notice {
    /// The bit of the mask that switches the kind on.
    pub open spec fn bit(self) -> u32 {
        match self {
            Notice::Created => 1,
            Notice::Failed => 2,
        }
    }
}

impl NotifyConfig {
    /// The settings let a notice of the kind `notice` through: the system
    /// has granted notifications, they are switched on, and so is the
    /// kind.
    pub open spec fn lets_through(self, notice: Notice) -> bool {
        self.is_granted && self.enable && self.mask & notice.bit() != 0
    }

    /// Whether the settings let a notice of the kind `notice` through.
    pub fn allows(&self, notice: Notice) -> (r: bool)
        ensures
            r == self.lets_through(notice),
    {
        let bit: u32 = match notice {
            Notice::Created => 1,
            Notice::Failed => 2,
        };
        self.is_granted && self.enable && self.mask & bit != 0
    }
}

} // verus!
