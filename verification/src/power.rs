//! Power capabilities, as the session manager daemon reports them.
//!
//! The D-Bus calls stay with the caller, who hands in each capability
//! query's answer; the rule — an action is allowed exactly when the
//! daemon answered `yes`, and a failed query allows nothing — is
//! verified here.

use vstd::prelude::*;

use crate::text::str_eq;

verus! {

/// Whether a capability answer grants the action: only a literal `yes`
/// does; `no`, `challenge`, `na` and a failed query do not.
pub open spec fn capability_granted(answer: Option<Seq<char>>) -> bool {
    answer == Some("yes"@)
}

/// The mathematical shape of a [`PowerManager`].
pub struct PowerManagerView {
    pub hibernate: Option<Seq<char>>,
    pub power_off: Option<Seq<char>>,
    pub reboot: Option<Seq<char>>,
    pub suspend: Option<Seq<char>>,
}

/// The answers of the four power capability queries; `None` stands for
/// a query that failed.
pub struct PowerManager {
    hibernate: Option<String>,
    power_off: Option<String>,
    reboot: Option<String>,
    suspend: Option<String>,
}

impl View for PowerManager {
    type V = PowerManagerView;

    closed spec fn view(&self) -> PowerManagerView {
        PowerManagerView {
            hibernate: self.hibernate.deep_view(),
            power_off: self.power_off.deep_view(),
            reboot: self.reboot.deep_view(),
            suspend: self.suspend.deep_view(),
        }
    }
}

impl PowerManager {
    /// A manager over the four query answers.
    pub fn new(
        hibernate: Option<String>,
        power_off: Option<String>,
        reboot: Option<String>,
        suspend: Option<String>,
    ) -> (r: PowerManager)
        ensures
            r@ == (PowerManagerView {
                hibernate: hibernate.deep_view(),
                power_off: power_off.deep_view(),
                reboot: reboot.deep_view(),
                suspend: suspend.deep_view(),
            }),
    {
        PowerManager { hibernate, power_off, reboot, suspend }
    }

    /// Whether the machine may hibernate.
    pub fn can_hibernate(&self) -> (r: bool)
        ensures
            r == capability_granted(self@.hibernate),
    {
        Self::granted(&self.hibernate)
    }

    /// Whether the machine may power off.
    pub fn can_power_off(&self) -> (r: bool)
        ensures
            r == capability_granted(self@.power_off),
    {
        Self::granted(&self.power_off)
    }

    /// Whether the machine may reboot.
    pub fn can_reboot(&self) -> (r: bool)
        ensures
            r == capability_granted(self@.reboot),
    {
        Self::granted(&self.reboot)
    }

    /// Whether the machine may suspend.
    pub fn can_suspend(&self) -> (r: bool)
        ensures
            r == capability_granted(self@.suspend),
    {
        Self::granted(&self.suspend)
    }

    /// The shared rule on one answer.
    fn granted(answer: &Option<String>) -> (r: bool)
        ensures
            r == capability_granted(answer.deep_view()),
    {
        match answer {
            Some(a) => str_eq(a.as_str(), "yes"),
            None => false,
        }
    }
}

} // verus!
