//! What the tray shows for the pipeline status and for the update check.

use vstd::prelude::*;
use crate::config::{domain_enabled, ConfigSlot};
use crate::controller::Status;
use crate::text::{chars_of, extend_chars, string_from_chars};
use crate::update::UpdateStatus;

verus! {

/// Outcome of handling a menu click, so the event loop knows when to quit.
#[derive(PartialEq, Eq, Structural)]
pub enum Action {
    Nothing,
    Quit,
}

/// The item shown in the domain submenu when no mask is configured.
pub const NO_DOMAINS_LABEL: &'static str = "(none configured)";

/// The domain submenu: each configured mask, in order, with whether it is
/// currently switched on (its check mark).
pub fn domain_items(slot: &ConfigSlot) -> (res: Vec<(String, bool)>)
    requires
        slot.live() is Some,
    ensures
        res@.len() == slot.live().unwrap().domains@.len(),
        forall|i: int|
            0 <= i < res@.len() ==> (#[trigger] res@[i]).0@ == slot.live().unwrap().domains@[i]@
                && res@[i].1 == !slot.disabled_masks().contains(slot.live().unwrap().domains@[i]@),
{
    let cfg = crate::config::config(slot);
    let mut out: Vec<(String, bool)> = Vec::new();
    let mut i: usize = 0;
    while i < cfg.domains.len()
        invariant
            *cfg == slot.live().unwrap(),
            0 <= i <= cfg.domains@.len(),
            out@.len() == i,
            forall|k: int|
                0 <= k < i ==> (#[trigger] out@[k]).0@ == cfg.domains@[k]@ && out@[k].1
                    == !slot.disabled_masks().contains(cfg.domains@[k]@),
        decreases cfg.domains@.len() - i,
    {
        let mask = cfg.domains[i].clone();
        let on = domain_enabled(slot, mask.as_str());
        out.push((mask, on));
        i += 1;
    }
    out
}

/// The tray dot's color for a status: green running, light blue working,
/// red error, grey stopped.
pub open spec fn spec_status_color(status: Status) -> (u8, u8, u8) {
    match status {
        Status::Running => (46, 204, 113),
        Status::Processing => (120, 190, 240),
        Status::Error => (231, 76, 60),
        Status::Stopped => (149, 165, 166),
    }
}

/// The tray dot's color for a status.
pub fn status_color(status: Status) -> (res: (u8, u8, u8))
    ensures
        res == spec_status_color(status),
{
    match status {
        Status::Running => (46, 204, 113),
        Status::Processing => (120, 190, 240),
        Status::Error => (231, 76, 60),
        Status::Stopped => (149, 165, 166),
    }
}

/// The status line of the menu.
pub fn status_text(status: Status) -> (res: &'static str)
    ensures
        status == Status::Stopped ==> res@ == "Status: stopped"@,
        status == Status::Processing ==> res@ == "Status: working…"@,
        status == Status::Running ==> res@ == "Status: running"@,
        status == Status::Error ==> res@ == "Status: error"@,
{
    match status {
        Status::Stopped => "Status: stopped",
        Status::Processing => "Status: working…",
        Status::Running => "Status: running",
        Status::Error => "Status: error",
    }
}

/// Start is offered when stopped or after an error (to retry).
pub fn start_enabled(status: Status) -> (res: bool)
    ensures
        res == (status == Status::Stopped || status == Status::Error),
{
    status == Status::Stopped || status == Status::Error
}

/// Stop is offered only while running.
pub fn stop_enabled(status: Status) -> (res: bool)
    ensures
        res == (status == Status::Running),
{
    status == Status::Running
}

/// Start and Stop are never offered together, and neither while a start or
/// stop is in flight.
pub proof fn lemma_start_stop_exclusive(status: Status)
    ensures
        !((status == Status::Stopped || status == Status::Error) && status == Status::Running),
        status == Status::Processing ==> !(status == Status::Stopped || status == Status::Error)
            && status != Status::Running,
{
}

/// The update item's label and whether it can be clicked. Only an available
/// update makes it clickable.
pub fn update_item(status: Option<&UpdateStatus>) -> (res: (String, bool))
    ensures
        match status {
            Some(UpdateStatus::Available { version, .. }) => res.0@ == "⬆ Update available: v"@
                + version@ && res.1,
            Some(UpdateStatus::UpToDate) => res.0@ == "✓ Up to date"@ && !res.1,
            Some(UpdateStatus::Failed) => res.0@ == "Update check failed"@ && !res.1,
            None => res.0@ == "Checking for updates…"@ && !res.1,
        },
{
    match status {
        Some(UpdateStatus::Available { version, .. }) => {
            let mut v = chars_of("⬆ Update available: v");
            extend_chars(&mut v, &chars_of(version.as_str()));
            (string_from_chars(&v), true)
        },
        Some(UpdateStatus::UpToDate) => (string_from_chars(&chars_of("✓ Up to date")), false),
        Some(UpdateStatus::Failed) => (string_from_chars(&chars_of("Update check failed")), false),
        None => (string_from_chars(&chars_of("Checking for updates…")), false),
    }
}

/// The version line of the menu: `Talpa v<version>`.
pub fn version_label(version: &str) -> (res: String)
    ensures
        res@ == "Talpa v"@ + version@,
{
    let mut v = chars_of("Talpa v");
    extend_chars(&mut v, &chars_of(version));
    string_from_chars(&v)
}

} // verus!
