//! Controls whose state follows the mode: editing service definitions is
//! only offered on the permanent configuration.
use vstd::prelude::*;

verus! {

/// The state of a button: whether it can be pressed, and its tooltip.
#[derive(Debug, Clone, PartialEq, Eq)]
pub struct ButtonState {
    pub sensitive: bool,
    pub tooltip: String,
}

fn string_of(s: &str) -> (r: String)
    ensures
        r@ == s@,
{
    s.to_owned()
}

/// The "add service" button: pressable in permanent mode only.
pub fn add_service_button(permanent: bool) -> (r: ButtonState)
    ensures
        r.sensitive == permanent,
        r.tooltip@ == (if permanent {
            "Add a new custom service definition."@
        } else {
            "Switch to Permanent mode to define new services."@
        }),
{
    if permanent {
        ButtonState { sensitive: true, tooltip: string_of("Add a new custom service definition.") }
    } else {
        ButtonState { sensitive: false, tooltip: string_of("Switch to Permanent mode to define new services.") }
    }
}

/// The edit button of a service row: pressable in permanent mode only.
pub fn edit_service_button(permanent: bool) -> (r: ButtonState)
    ensures
        r.sensitive == permanent,
        r.tooltip@ == (if permanent { "Edit service"@ } else { "Switch to Permanent mode to edit"@ }),
{
    if permanent {
        ButtonState { sensitive: true, tooltip: string_of("Edit service") }
    } else {
        ButtonState { sensitive: false, tooltip: string_of("Switch to Permanent mode to edit") }
    }
}

/// The remove button of a service row: pressable in permanent mode only.
pub fn remove_service_button(permanent: bool) -> (r: ButtonState)
    ensures
        r.sensitive == permanent,
        r.tooltip@ == (if permanent { "Remove service"@ } else { "Switch to Permanent mode to remove"@ }),
{
    if permanent {
        ButtonState { sensitive: true, tooltip: string_of("Remove service") }
    } else {
        ButtonState { sensitive: false, tooltip: string_of("Switch to Permanent mode to remove") }
    }
}

/// The message shown on switching mode.
pub fn mode_switch_message(permanent: bool) -> (r: String)
    ensures
        r@ == (if permanent {
            "Switched to Permanent Configuration"@
        } else {
            "Switched to Runtime Configuration"@
        }),
{
    if permanent {
        string_of("Switched to Permanent Configuration")
    } else {
        string_of("Switched to Runtime Configuration")
    }
}

} // verus!
