use firewall_manager::client::FirewallClient;
use firewall_manager::zone_edit::{CallReply, DbusCall, EditProgress, EditStep, ZoneEdit};

fn s(x: &str) -> String {
    x.to_string()
}

#[test]
fn new_client_is_runtime_and_saved() {
    let c = FirewallClient::new();
    assert!(!c.is_permanent_mode());
    assert!(!c.has_unsaved_changes());
    assert!(!c.runtime_bar_revealed());
}

#[test]
fn runtime_changes_show_the_bar_until_cleared() {
    let mut c = FirewallClient::new();
    c.mark_unsaved();
    assert!(c.has_unsaved_changes());
    assert!(c.runtime_bar_revealed());
    c.clear_unsaved();
    assert!(!c.has_unsaved_changes());
    assert!(!c.runtime_bar_revealed());
}

#[test]
fn permanent_mode_notes_no_changes() {
    let mut c = FirewallClient::new();
    c.set_permanent_mode(true);
    assert!(c.is_permanent_mode());
    c.mark_unsaved();
    assert!(!c.has_unsaved_changes());
}

#[test]
fn mode_switch_keeps_unsaved_changes() {
    let mut c = FirewallClient::new();
    c.mark_unsaved();
    c.set_permanent_mode(true);
    assert!(!c.runtime_bar_revealed());
    c.set_permanent_mode(false);
    assert!(c.runtime_bar_revealed());
}

#[test]
fn runtime_edit_is_one_call_and_marks_unsaved() {
    let mut c = FirewallClient::new();
    let e = ZoneEdit::AddService { zone: s("public"), service: s("ssh"), timeout: 0 };
    let (p, call) = c.begin_edit(&e);
    assert_eq!(p, EditProgress::AwaitRuntime);
    assert_eq!(call, DbusCall::Runtime(e.clone()));
    let step = c.continue_edit(&e, p, CallReply::Replied(s("public")));
    assert_eq!(step, EditStep::Done(s("public")));
    assert!(c.runtime_bar_revealed());
}

#[test]
fn failed_runtime_edit_marks_nothing() {
    let mut c = FirewallClient::new();
    let e = ZoneEdit::RemovePort { zone: s("home"), port: s("80"), protocol: s("tcp") };
    let (p, _) = c.begin_edit(&e);
    assert_eq!(c.continue_edit(&e, p, CallReply::Failed), EditStep::Failed);
    assert!(!c.has_unsaved_changes());
}

#[test]
fn permanent_edit_goes_to_the_zone_settings() {
    let mut c = FirewallClient::new();
    c.set_permanent_mode(true);
    let e = ZoneEdit::RemoveService { zone: s("home"), service: s("mdns") };
    let (p, call) = c.begin_edit(&e);
    assert_eq!(p, EditProgress::AwaitPermanent);
    assert_eq!(call, DbusCall::Permanent(e.clone()));
    assert_eq!(c.continue_edit(&e, p, CallReply::Replied(s("ignored"))), EditStep::Done(s("")));
    assert!(!c.has_unsaved_changes());
}

#[test]
fn permanent_interface_move_detaches_then_attaches() {
    let mut c = FirewallClient::new();
    c.set_permanent_mode(true);
    let e = ZoneEdit::ChangeInterface { zone: s("home"), interface: s("eth0") };
    let (p, call) = c.begin_edit(&e);
    assert_eq!(p, EditProgress::AwaitOldZone);
    assert_eq!(call, DbusCall::ZoneOfInterface { interface: s("eth0") });
    let step = c.continue_edit(&e, p, CallReply::Replied(s("public")));
    assert_eq!(
        step,
        EditStep::Next(EditProgress::AwaitDetach, DbusCall::DetachInterface { zone: s("public"), interface: s("eth0") })
    );
    let step = c.continue_edit(&e, EditProgress::AwaitDetach, CallReply::Failed);
    assert_eq!(
        step,
        EditStep::Next(EditProgress::AwaitAttach, DbusCall::AttachInterface { zone: s("home"), interface: s("eth0") })
    );
    let step = c.continue_edit(&e, EditProgress::AwaitAttach, CallReply::Replied(s("")));
    assert_eq!(step, EditStep::Done(s("home")));
    assert!(!c.has_unsaved_changes());
}

#[test]
fn interface_without_zone_is_attached_directly() {
    let mut c = FirewallClient::new();
    c.set_permanent_mode(true);
    let e = ZoneEdit::ChangeInterface { zone: s("work"), interface: s("wlan0") };
    let (p, _) = c.begin_edit(&e);
    assert_eq!(
        c.continue_edit(&e, p, CallReply::Replied(s(""))),
        EditStep::Next(EditProgress::AwaitAttach, DbusCall::AttachInterface { zone: s("work"), interface: s("wlan0") })
    );
    assert_eq!(c.continue_edit(&e, EditProgress::AwaitOldZone, CallReply::Failed), EditStep::Failed);
    assert_eq!(c.continue_edit(&e, EditProgress::AwaitAttach, CallReply::Failed), EditStep::Failed);
}

#[test]
fn runtime_interface_move_returns_the_reply() {
    let mut c = FirewallClient::new();
    let e = ZoneEdit::ChangeInterface { zone: s("work"), interface: s("wlan0") };
    let (p, call) = c.begin_edit(&e);
    assert_eq!(call, DbusCall::Runtime(e.clone()));
    assert_eq!(c.continue_edit(&e, p, CallReply::Replied(s("work"))), EditStep::Done(s("work")));
    assert!(c.has_unsaved_changes());
}

#[test]
fn reply_after_switching_to_permanent_marks_nothing() {
    let mut c = FirewallClient::new();
    let e = ZoneEdit::AddSource { zone: s("trusted"), source: s("10.0.0.0/8") };
    let (p, _) = c.begin_edit(&e);
    c.set_permanent_mode(true);
    assert_eq!(c.continue_edit(&e, p, CallReply::Replied(s("trusted"))), EditStep::Done(s("trusted")));
    assert!(!c.has_unsaved_changes());
}
