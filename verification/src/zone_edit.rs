//! Edits of a zone and the D-Bus calls that carry them out.  In runtime mode
//! an edit is one call on the runtime zone interface, and a successful one
//! leaves the runtime configuration with unsaved changes.  In permanent mode
//! it is one call on the zone's permanent settings, except for moving an
//! interface, which first asks for the interface's current zone, takes the
//! interface out of it (a failure there is ignored), then adds it to the new
//! zone.
use vstd::prelude::*;
use crate::client::{FirewallClient, bar_shown};

verus! {

/// A change to a zone.
#[derive(Debug, Clone, PartialEq, Eq)]
pub enum ZoneEdit {
    ChangeInterface { zone: String, interface: String },
    AddService { zone: String, service: String, timeout: i32 },
    RemoveService { zone: String, service: String },
    AddPort { zone: String, port: String, protocol: String, timeout: i32 },
    RemovePort { zone: String, port: String, protocol: String },
    AddSource { zone: String, source: String },
    RemoveSource { zone: String, source: String },
    AddForwardPort {
        zone: String,
        port: String,
        protocol: String,
        to_port: String,
        to_addr: String,
        timeout: i32,
    },
    RemoveForwardPort { zone: String, port: String, protocol: String, to_port: String, to_addr: String },
}

/// A call for the bus to make.
#[derive(Debug, Clone, PartialEq, Eq)]
pub enum DbusCall {
    /// The edit, on the runtime zone interface; the reply is a string.
    Runtime(ZoneEdit),
    /// The edit, on the permanent settings of its zone.
    Permanent(ZoneEdit),
    /// Ask the permanent configuration which zone holds an interface.
    ZoneOfInterface { interface: String },
    /// Take an interface out of a zone's permanent settings.
    DetachInterface { zone: String, interface: String },
    /// Add an interface to a zone's permanent settings.
    AttachInterface { zone: String, interface: String },
}

/// Which reply an edit in progress waits for.
#[derive(Debug, Clone, PartialEq, Eq)]
pub enum EditProgress {
    AwaitRuntime,
    AwaitPermanent,
    AwaitOldZone,
    AwaitDetach,
    AwaitAttach,
}

/// How a call ended: its reply, or a failure.
#[derive(Debug, Clone, PartialEq, Eq)]
pub enum CallReply {
    Replied(String),
    Failed,
}

/// What follows a reply: another call, the end with the edit's result, or a
/// failure of the edit.
#[derive(Debug, Clone, PartialEq, Eq)]
pub enum EditStep {
    Next(EditProgress, DbusCall),
    Done(String),
    Failed,
}

/// The zone that an edit changes.
pub open spec fn edit_zone(e: ZoneEdit) -> String {
    match e {
        ZoneEdit::ChangeInterface { zone, .. } => zone,
        ZoneEdit::AddService { zone, .. } => zone,
        ZoneEdit::RemoveService { zone, .. } => zone,
        ZoneEdit::AddPort { zone, .. } => zone,
        ZoneEdit::RemovePort { zone, .. } => zone,
        ZoneEdit::AddSource { zone, .. } => zone,
        ZoneEdit::RemoveSource { zone, .. } => zone,
        ZoneEdit::AddForwardPort { zone, .. } => zone,
        ZoneEdit::RemoveForwardPort { zone, .. } => zone,
    }
}

/// The first call of an edit, and what it waits for.
pub open spec fn first_call(permanent: bool, e: ZoneEdit) -> (EditProgress, DbusCall) {
    if !permanent {
        (EditProgress::AwaitRuntime, DbusCall::Runtime(e))
    } else {
        match e {
            ZoneEdit::ChangeInterface { interface, .. } => (
                EditProgress::AwaitOldZone,
                DbusCall::ZoneOfInterface { interface },
            ),
            _ => (EditProgress::AwaitPermanent, DbusCall::Permanent(e)),
        }
    }
}

/// Whether a progress state belongs to an edit: the states of moving an
/// interface in permanent mode belong to that edit alone.
pub open spec fn progress_fits(e: ZoneEdit, p: EditProgress) -> bool {
    match p {
        EditProgress::AwaitOldZone | EditProgress::AwaitDetach | EditProgress::AwaitAttach =>
            e is ChangeInterface,
        _ => true,
    }
}

/// What follows a reply, for an edit in progress.
pub open spec fn next_step(e: ZoneEdit, p: EditProgress, reply: CallReply, step: EditStep) -> bool {
    match p {
        EditProgress::AwaitRuntime => match reply {
            CallReply::Replied(s) => step == EditStep::Done(s),
            CallReply::Failed => step is Failed,
        },
        EditProgress::AwaitPermanent => match reply {
            CallReply::Replied(_) => step matches EditStep::Done(s) && s@.len() == 0,
            CallReply::Failed => step is Failed,
        },
        EditProgress::AwaitOldZone => match reply {
            CallReply::Replied(old) => if old@.len() == 0 {
                step == EditStep::Next(
                    EditProgress::AwaitAttach,
                    DbusCall::AttachInterface { zone: edit_zone(e), interface: e->ChangeInterface_interface },
                )
            } else {
                step == EditStep::Next(
                    EditProgress::AwaitDetach,
                    DbusCall::DetachInterface { zone: old, interface: e->ChangeInterface_interface },
                )
            },
            CallReply::Failed => step is Failed,
        },
        EditProgress::AwaitDetach => step == EditStep::Next(
            EditProgress::AwaitAttach,
            DbusCall::AttachInterface { zone: edit_zone(e), interface: e->ChangeInterface_interface },
        ),
        EditProgress::AwaitAttach => match reply {
            CallReply::Replied(_) => step == EditStep::Done(edit_zone(e)),
            CallReply::Failed => step is Failed,
        },
    }
}

/// Whether a reply is the success of a runtime edit, which leaves the runtime
/// configuration changed.
pub open spec fn changes_runtime(p: EditProgress, reply: CallReply) -> bool {
    p is AwaitRuntime && reply is Replied
}

/// A copy of an edit.
pub fn copy_edit(e: &ZoneEdit) -> (r: ZoneEdit)
    ensures
        r == *e,
{
    match e {
        ZoneEdit::ChangeInterface { zone, interface } => ZoneEdit::ChangeInterface {
            zone: zone.clone(),
            interface: interface.clone(),
        },
        ZoneEdit::AddService { zone, service, timeout } => ZoneEdit::AddService {
            zone: zone.clone(),
            service: service.clone(),
            timeout: *timeout,
        },
        ZoneEdit::RemoveService { zone, service } => ZoneEdit::RemoveService {
            zone: zone.clone(),
            service: service.clone(),
        },
        ZoneEdit::AddPort { zone, port, protocol, timeout } => ZoneEdit::AddPort {
            zone: zone.clone(),
            port: port.clone(),
            protocol: protocol.clone(),
            timeout: *timeout,
        },
        ZoneEdit::RemovePort { zone, port, protocol } => ZoneEdit::RemovePort {
            zone: zone.clone(),
            port: port.clone(),
            protocol: protocol.clone(),
        },
        ZoneEdit::AddSource { zone, source } => ZoneEdit::AddSource {
            zone: zone.clone(),
            source: source.clone(),
        },
        ZoneEdit::RemoveSource { zone, source } => ZoneEdit::RemoveSource {
            zone: zone.clone(),
            source: source.clone(),
        },
        ZoneEdit::AddForwardPort { zone, port, protocol, to_port, to_addr, timeout } =>
            ZoneEdit::AddForwardPort {
            zone: zone.clone(),
            port: port.clone(),
            protocol: protocol.clone(),
            to_port: to_port.clone(),
            to_addr: to_addr.clone(),
            timeout: *timeout,
        },
        ZoneEdit::RemoveForwardPort { zone, port, protocol, to_port, to_addr } =>
            ZoneEdit::RemoveForwardPort {
            zone: zone.clone(),
            port: port.clone(),
            protocol: protocol.clone(),
            to_port: to_port.clone(),
            to_addr: to_addr.clone(),
        },
    }
}

/// The zone that an edit changes.
pub fn zone_of_edit(e: &ZoneEdit) -> (z: &String)
    ensures
        *z == edit_zone(*e),
{
    match e {
        ZoneEdit::ChangeInterface { zone, .. } => zone,
        ZoneEdit::AddService { zone, .. } => zone,
        ZoneEdit::RemoveService { zone, .. } => zone,
        ZoneEdit::AddPort { zone, .. } => zone,
        ZoneEdit::RemovePort { zone, .. } => zone,
        ZoneEdit::AddSource { zone, .. } => zone,
        ZoneEdit::RemoveSource { zone, .. } => zone,
        ZoneEdit::AddForwardPort { zone, .. } => zone,
        ZoneEdit::RemoveForwardPort { zone, .. } => zone,
    }
}

impl FirewallClient {
    /// The first call of an edit, for the configuration the client works on.
    pub fn begin_edit(&self, e: &ZoneEdit) -> (r: (EditProgress, DbusCall))
        ensures
            r == first_call(self.permanent(), *e),
            progress_fits(*e, r.0),
    {
        if !self.is_permanent_mode() {
            (EditProgress::AwaitRuntime, DbusCall::Runtime(copy_edit(e)))
        } else {
            match e {
                ZoneEdit::ChangeInterface { interface, .. } => (
                    EditProgress::AwaitOldZone,
                    DbusCall::ZoneOfInterface { interface: interface.clone() },
                ),
                _ => (EditProgress::AwaitPermanent, DbusCall::Permanent(copy_edit(e))),
            }
        }
    }

    /// Takes the reply to an edit's last call: decides what follows, and notes
    /// an unsaved runtime change where a runtime edit succeeded.
    pub fn continue_edit(&mut self, e: &ZoneEdit, progress: EditProgress, reply: CallReply) -> (r: EditStep)
        requires
            progress_fits(*e, progress),
        ensures
            next_step(*e, progress, reply, r),
            r matches EditStep::Next(p, _) ==> progress_fits(*e, p),
            final(self).permanent() == old(self).permanent(),
            final(self).unsaved() == (old(self).unsaved() || (changes_runtime(progress, reply)
                && !old(self).permanent())),
    {
        let ghost reply0 = reply;
        match progress {
            EditProgress::AwaitRuntime => match reply {
                CallReply::Replied(s) => {
                    self.mark_unsaved();
                    EditStep::Done(s)
                },
                CallReply::Failed => EditStep::Failed,
            },
            EditProgress::AwaitPermanent => match reply {
                CallReply::Replied(_) => EditStep::Done(String::new()),
                CallReply::Failed => EditStep::Failed,
            },
            EditProgress::AwaitOldZone => {
                let interface = match e {
                    ZoneEdit::ChangeInterface { interface, .. } => interface.clone(),
                    _ => {
                        proof {
                            assert(false);
                        }
                        String::new()
                    },
                };
                match reply {
                    CallReply::Replied(old_zone) => {
                        if old_zone.as_str().is_empty() {
                            EditStep::Next(
                                EditProgress::AwaitAttach,
                                DbusCall::AttachInterface { zone: zone_of_edit(e).clone(), interface },
                            )
                        } else {
                            EditStep::Next(
                                EditProgress::AwaitDetach,
                                DbusCall::DetachInterface { zone: old_zone, interface },
                            )
                        }
                    },
                    CallReply::Failed => EditStep::Failed,
                }
            },
            EditProgress::AwaitDetach => {
                let interface = match e {
                    ZoneEdit::ChangeInterface { interface, .. } => interface.clone(),
                    _ => {
                        proof {
                            assert(false);
                        }
                        String::new()
                    },
                };
                EditStep::Next(
                    EditProgress::AwaitAttach,
                    DbusCall::AttachInterface { zone: zone_of_edit(e).clone(), interface },
                )
            },
            EditProgress::AwaitAttach => match reply {
                CallReply::Replied(_) => EditStep::Done(zone_of_edit(e).clone()),
                CallReply::Failed => EditStep::Failed,
            },
        }
    }
}

/// An edit in permanent mode never leaves the runtime configuration with
/// unsaved changes, whatever its replies.
pub proof fn law_permanent_edits_leave_runtime_saved(
    c0: FirewallClient,
    c1: FirewallClient,
    p: EditProgress,
    reply: CallReply,
)
    requires
        c0.permanent(),
        c1.permanent() == c0.permanent(),
        c1.unsaved() == (c0.unsaved() || (changes_runtime(p, reply) && !c0.permanent())),
    ensures
        c1.unsaved() == c0.unsaved(),
        !bar_shown(c1),
{
}

/// A failed call never counts as a change.
pub proof fn law_failed_call_changes_nothing(c0: FirewallClient, c1: FirewallClient, p: EditProgress)
    requires
        c1.permanent() == c0.permanent(),
        c1.unsaved() == (c0.unsaved() || (changes_runtime(p, CallReply::Failed) && !c0.permanent())),
    ensures
        c1.unsaved() == c0.unsaved(),
{
}

/// A runtime edit that succeeds shows the save/revert bar, as long as the
/// client is still in runtime mode when the reply comes.
pub proof fn law_runtime_edit_shows_bar(c0: FirewallClient, c1: FirewallClient, s: String)
    requires
        !c0.permanent(),
        c1.permanent() == c0.permanent(),
        c1.unsaved() == (c0.unsaved() || (changes_runtime(EditProgress::AwaitRuntime, CallReply::Replied(s))
            && !c0.permanent())),
    ensures
        bar_shown(c1),
{
}

/// Moving an interface in permanent mode goes on to add it to the new zone
/// whether or not taking it out of its old zone worked.
pub proof fn law_interface_move_ignores_failed_detach(e: ZoneEdit, s: String, step: EditStep)
    requires
        e is ChangeInterface,
    ensures
        next_step(e, EditProgress::AwaitDetach, CallReply::Failed, step) == next_step(
            e,
            EditProgress::AwaitDetach,
            CallReply::Replied(s),
            step,
        ),
        next_step(e, EditProgress::AwaitDetach, CallReply::Failed, step) ==> step is Next,
{
}

/// An edit takes at most three calls: runtime edits and permanent edits
/// other than moving an interface are done after their first reply, and
/// moving an interface ends at the latest on the reply to adding it.
pub proof fn law_edit_ends(permanent: bool, e: ZoneEdit, r1: CallReply, s1: EditStep, r2: CallReply, s2: EditStep, r3: CallReply, s3: EditStep)
    requires
        next_step(e, first_call(permanent, e).0, r1, s1),
        s1 is Next ==> next_step(e, s1->Next_0, r2, s2),
        s1 is Next && s2 is Next ==> next_step(e, s2->Next_0, r3, s3),
    ensures
        !(first_call(permanent, e).0 is AwaitOldZone) ==> !(s1 is Next),
        s1 is Next && s2 is Next ==> !(s3 is Next),
{
    if s1 is Next {
        let p1 = first_call(permanent, e).0;
        assert(p1 is AwaitOldZone);
        let p2 = s1->Next_0;
        assert(p2 is AwaitAttach || p2 is AwaitDetach);
        if s2 is Next {
            assert(p2 is AwaitDetach);
            assert(s2->Next_0 is AwaitAttach);
        }
    }
}

/// In runtime mode every edit goes to the runtime zone interface, as it is,
/// and nothing else: its first and only call is the edit on the runtime
/// configuration, whose success then leaves unsaved runtime changes.  In
/// permanent mode no edit goes to the runtime interface.
pub proof fn law_runtime_edits_go_to_runtime(e: ZoneEdit, reply: String)
    ensures
        first_call(false, e).0 == EditProgress::AwaitRuntime,
        first_call(false, e).1 == DbusCall::Runtime(e),
        changes_runtime(first_call(false, e).0, CallReply::Replied(reply)),
        !(first_call(true, e).0 is AwaitRuntime),
        !(first_call(true, e).1 is Runtime),
{
}

} // verus!
