//! The firewall client's own state and the decisions it takes around its
//! D-Bus calls: which configuration a request goes to (runtime or permanent),
//! which calls an edit of a zone takes and in what order, and when the
//! runtime configuration holds changes that are not yet saved.
use vstd::prelude::*;

verus! {

/// The state that the client keeps besides its bus connection: whether it
/// works on the permanent configuration, and whether the runtime
/// configuration has changes that were not made permanent.
#[derive(Debug, Clone, PartialEq, Eq)]
pub struct FirewallClient {
    is_permanent: bool,
    unsaved_changes: bool,
}

/// Whether the bar that offers to save or revert runtime changes shows.
pub open spec fn bar_shown(c: FirewallClient) -> bool {
    c.unsaved() && !c.permanent()
}

impl FirewallClient {
    /// Whether the client works on the permanent configuration.
    pub closed spec fn permanent(&self) -> bool {
        self.is_permanent
    }

    /// Whether the runtime configuration has unsaved changes.
    pub closed spec fn unsaved(&self) -> bool {
        self.unsaved_changes
    }

    /// A client as it starts: on the runtime configuration, with nothing unsaved.
    pub fn new() -> (c: Self)
        ensures
            !c.permanent(),
            !c.unsaved(),
    {
        FirewallClient { is_permanent: false, unsaved_changes: false }
    }

    /// Notes a change of the runtime configuration; in permanent mode there is
    /// nothing to note.
    pub fn mark_unsaved(&mut self)
        ensures
            final(self).permanent() == old(self).permanent(),
            final(self).unsaved() == (old(self).unsaved() || !old(self).permanent()),
    {
        if !self.is_permanent_mode() {
            self.unsaved_changes = true;
        }
    }

    /// Notes that the runtime configuration has nothing unsaved (after a
    /// reload or after it was made permanent).
    pub fn clear_unsaved(&mut self)
        ensures
            final(self).permanent() == old(self).permanent(),
            !final(self).unsaved(),
    {
        self.unsaved_changes = false;
    }

    /// Switches between the permanent and the runtime configuration.
    pub fn set_permanent_mode(&mut self, permanent: bool)
        ensures
            final(self).permanent() == permanent,
            final(self).unsaved() == old(self).unsaved(),
    {
        self.is_permanent = permanent;
    }

    /// Whether the client works on the permanent configuration.
    pub fn is_permanent_mode(&self) -> (b: bool)
        ensures
            b == self.permanent(),
    {
        self.is_permanent
    }

    /// Whether the runtime configuration has unsaved changes.
    pub fn has_unsaved_changes(&self) -> (b: bool)
        ensures
            b == self.unsaved(),
    {
        self.unsaved_changes
    }

    /// Whether the bar that offers to save or revert runtime changes is shown:
    /// only in runtime mode, and only while there are unsaved changes.
    pub fn runtime_bar_revealed(&self) -> (b: bool)
        ensures
            b == bar_shown(*self),
    {
        self.unsaved_changes && !self.is_permanent
    }
}

/// Switching to the permanent configuration hides the save/revert bar, and
/// switching back shows it again while the runtime changes are unsaved:
/// switching modes neither saves nor drops them.
pub proof fn law_mode_switch_keeps_unsaved_changes(c0: FirewallClient, c1: FirewallClient, c2: FirewallClient)
    requires
        c1.permanent() && c1.unsaved() == c0.unsaved(),
        !c2.permanent() && c2.unsaved() == c1.unsaved(),
    ensures
        !bar_shown(c1),
        bar_shown(c2) == c0.unsaved(),
{
}

/// After the runtime configuration is reloaded or made permanent (which
/// clear the unsaved changes), the save/revert bar is hidden.
pub proof fn law_save_or_reload_hides_bar(c0: FirewallClient, c1: FirewallClient)
    requires
        c1.permanent() == c0.permanent() && !c1.unsaved(),
    ensures
        !bar_shown(c1),
{
}

/// Noting a change in runtime mode shows the bar; in permanent mode it
/// changes nothing.
pub proof fn law_mark_unsaved(c0: FirewallClient, c1: FirewallClient)
    requires
        c1.permanent() == c0.permanent(),
        c1.unsaved() == (c0.unsaved() || !c0.permanent()),
    ensures
        !c0.permanent() ==> bar_shown(c1),
        c0.permanent() ==> c1.unsaved() == c0.unsaved(),
{
}

} // verus!
