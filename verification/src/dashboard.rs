//! The dashboard's firewall status: the service state line, the
//! enable/disable button and what pressing it does.
use vstd::prelude::*;
use crate::text::{lowercase, trim, trimmed, to_lowercase};

verus! {

/// The service state as the dashboard shows it.
#[derive(Debug, Clone, PartialEq, Eq)]
pub struct ServiceStatus {
    /// The text of the state line.
    pub label: String,
    /// Whether the firewall counts as running.
    pub running: bool,
}

/// How the enable/disable button looks.
#[derive(Debug, Clone, PartialEq, Eq)]
pub struct FirewallButton {
    pub label: String,
    /// The style class to add.
    pub add_class: String,
    /// The style class to remove.
    pub remove_class: String,
}

/// What pressing the enable/disable button asks for.
#[derive(Debug, Clone, PartialEq, Eq)]
pub enum FirewallAction {
    Disable,
    Enable,
}

/// The label of the button for a firewall that runs or not.
pub open spec fn button_label(running: bool) -> Seq<char> {
    if running {
        "Disable Firewall"@
    } else {
        "Enable Firewall"@
    }
}

/// Whether a reported state counts as running: `running`, in any case, with
/// white space around it ignored.
pub open spec fn is_running_state(state: Seq<char>) -> bool {
    lowercase(trim(state)) == "running"@
}

/// Whether a successful press leaves the firewall running.
pub open spec fn runs_after(action: FirewallAction) -> bool {
    action is Enable
}

fn string_of(s: &str) -> (r: String)
    ensures
        r@ == s@,
{
    s.to_owned()
}

fn joined(a: &str, b: &str) -> (r: String)
    ensures
        r@ == a@ + b@,
{
    let mut r = a.to_owned();
    r.append(b);
    r
}

/// The state line and running flag for the state that firewalld reported,
/// or for no answer (`None`), which counts as stopped.
pub fn service_status(state: Option<&str>) -> (r: ServiceStatus)
    ensures
        match state {
            Some(s) => r.label@ == "Service state: "@ + s@ && r.running == is_running_state(s@),
            None => r.label@ == "Service state: stopped"@ && !r.running,
        },
{
    match state {
        Some(s) => {
            let lowered = to_lowercase(trimmed(s).as_str());
            let running = string_of("running");
            ServiceStatus { label: joined("Service state: ", s), running: lowered == running }
        },
        None => ServiceStatus { label: string_of("Service state: stopped"), running: false },
    }
}

/// How the button looks for a firewall that runs or not: a destructive
/// "Disable Firewall" button, or a suggested "Enable Firewall" one.
pub fn firewall_button(is_running: bool) -> (r: FirewallButton)
    ensures
        r.label@ == button_label(is_running),
        is_running ==> r.add_class@ == "destructive-action"@ && r.remove_class@ == "suggested-action"@,
        !is_running ==> r.add_class@ == "suggested-action"@ && r.remove_class@ == "destructive-action"@,
{
    if is_running {
        FirewallButton {
            label: string_of("Disable Firewall"),
            add_class: string_of("destructive-action"),
            remove_class: string_of("suggested-action"),
        }
    } else {
        FirewallButton {
            label: string_of("Enable Firewall"),
            add_class: string_of("suggested-action"),
            remove_class: string_of("destructive-action"),
        }
    }
}

/// What a press asks for, read from the button's label: disabling where the
/// label offers it, enabling otherwise.
pub fn firewall_action(label: &str) -> (r: FirewallAction)
    ensures
        (r is Disable) == (label@ == "Disable Firewall"@),
{
    if string_of(label) == string_of("Disable Firewall") {
        FirewallAction::Disable
    } else {
        FirewallAction::Enable
    }
}

/// The state line after a press succeeded.
pub fn state_after(action: &FirewallAction) -> (r: String)
    ensures
        r@ == (if runs_after(*action) { "Service state: running"@ } else { "Service state: stopped"@ }),
{
    match action {
        FirewallAction::Disable => string_of("Service state: stopped"),
        FirewallAction::Enable => string_of("Service state: running"),
    }
}

/// Whether the firewall runs after a press succeeded.
pub fn running_after(action: &FirewallAction) -> (r: bool)
    ensures
        r == runs_after(*action),
{
    match action {
        FirewallAction::Disable => false,
        FirewallAction::Enable => true,
    }
}

/// The message shown when a press failed with the given error text.
pub fn action_failed_message(action: &FirewallAction, error: &str) -> (r: String)
    ensures
        r@ == (if runs_after(*action) { "Failed to start firewall: "@ } else { "Failed to stop firewall: "@ }) + error@,
{
    match action {
        FirewallAction::Disable => joined("Failed to stop firewall: ", error),
        FirewallAction::Enable => joined("Failed to start firewall: ", error),
    }
}

/// The description of the status page: the fallback zone, or the error met
/// while reading it.
pub fn fallback_zone_description(zone: Result<&str, &str>) -> (r: String)
    ensures
        match zone {
            Ok(z) => r@ == "Fallback Zone: "@ + z@,
            Err(e) => r@ == "Error reading zone: "@ + e@,
        },
{
    match zone {
        Ok(z) => joined("Fallback Zone: ", z),
        Err(e) => joined("Error reading zone: ", e),
    }
}

/// The subtitle of an interface's row: the zone that holds it, or
/// `Unknown` where asking for it failed.
pub fn interface_zone_subtitle(zone: Option<&str>) -> (r: String)
    ensures
        r@ == "Current Zone: "@ + match zone {
            Some(z) => z@,
            None => "Unknown"@,
        },
{
    match zone {
        Some(z) => joined("Current Zone: ", z),
        None => joined("Current Zone: ", "Unknown"),
    }
}

/// The button's label tells which state the firewall is in: it asks to
/// disable exactly when the firewall runs.
pub proof fn law_button_label_tells_state(running: bool)
    ensures
        (button_label(running) == "Disable Firewall"@) == running,
{
    reveal_strlit("Disable Firewall");
    reveal_strlit("Enable Firewall");
    if !running {
        assert(button_label(running).len() != "Disable Firewall"@.len());
    }
}

/// The button alternates: after a press succeeded, the button shows the
/// opposite action (its label, read back, asks for the other one).
pub proof fn law_button_alternates(action: FirewallAction)
    ensures
        (button_label(runs_after(action)) == "Disable Firewall"@) == (action is Enable),
{
    law_button_label_tells_state(runs_after(action));
}

/// The firewall counts as running exactly when the reported state, trimmed
/// and lower-cased, is `running`: any other state (`FAILED`, `INIT`, ...)
/// counts as stopped, and white space around the state does not matter.
pub proof fn law_running_only_when_running(state: Seq<char>)
    ensures
        is_running_state(state) ==> lowercase(trim(state)) == "running"@,
        lowercase(trim(state)) != "running"@ ==> !is_running_state(state),
        lowercase(trim(state)) == "running"@ ==> is_running_state(state),
{
}

} // verus!
