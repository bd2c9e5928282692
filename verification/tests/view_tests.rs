use firewall_manager::controls::{add_service_button, edit_service_button, mode_switch_message, remove_service_button};
use firewall_manager::dashboard::{
    action_failed_message, fallback_zone_description, firewall_action, firewall_button, interface_zone_subtitle,
    running_after, service_status, state_after, FirewallAction,
};
use firewall_manager::dialogs::{entry_at, initial_zone_selection, protocol_choice};
use firewall_manager::services::{edited_service_config, new_service_config, ServiceSettings};
use firewall_manager::zone_edit::ZoneEdit;
use firewall_manager::zone_view::{
    count_subtitle, forward_port_title, plain_zone_details, zone_details, AddKind, DetailEntry, DetailRow,
    SettingValue, ZoneSettings,
};

fn s(x: &str) -> String {
    x.to_string()
}

fn strings(v: &[&str]) -> Vec<String> {
    v.iter().map(|x| x.to_string()).collect()
}

#[test]
fn running_state_is_read_loosely() {
    let st = service_status(Some(" RUNNING\n"));
    assert_eq!(st.label, "Service state:  RUNNING\n");
    assert!(st.running);
    assert!(!service_status(Some("failed")).running);
    let st = service_status(None);
    assert_eq!(st.label, "Service state: stopped");
    assert!(!st.running);
}

#[test]
fn button_follows_the_state() {
    let b = firewall_button(true);
    assert_eq!((b.label.as_str(), b.add_class.as_str(), b.remove_class.as_str()), ("Disable Firewall", "destructive-action", "suggested-action"));
    let b = firewall_button(false);
    assert_eq!((b.label.as_str(), b.add_class.as_str(), b.remove_class.as_str()), ("Enable Firewall", "suggested-action", "destructive-action"));
}

#[test]
fn button_alternates() {
    for running in [true, false] {
        let action = firewall_action(&firewall_button(running).label);
        assert_eq!(action == FirewallAction::Disable, running);
        let next = firewall_action(&firewall_button(running_after(&action)).label);
        assert_ne!(next, action);
    }
    assert_eq!(firewall_action(""), FirewallAction::Enable);
}

#[test]
fn texts_after_pressing() {
    assert_eq!(state_after(&FirewallAction::Disable), "Service state: stopped");
    assert_eq!(state_after(&FirewallAction::Enable), "Service state: running");
    assert_eq!(action_failed_message(&FirewallAction::Disable, "denied"), "Failed to stop firewall: denied");
    assert_eq!(action_failed_message(&FirewallAction::Enable, "x"), "Failed to start firewall: x");
    assert_eq!(fallback_zone_description(Ok("public")), "Fallback Zone: public");
    assert_eq!(fallback_zone_description(Err("no reply")), "Error reading zone: no reply");
    assert_eq!(interface_zone_subtitle(Some("home")), "Current Zone: home");
    assert_eq!(interface_zone_subtitle(None), "Current Zone: Unknown");
}

#[test]
fn controls_follow_the_mode() {
    assert!(add_service_button(true).sensitive);
    assert_eq!(add_service_button(false).tooltip, "Switch to Permanent mode to define new services.");
    assert_eq!(edit_service_button(false).tooltip, "Switch to Permanent mode to edit");
    assert!(!remove_service_button(false).sensitive);
    assert_eq!(remove_service_button(true).tooltip, "Remove service");
    assert_eq!(mode_switch_message(true), "Switched to Permanent Configuration");
    assert_eq!(mode_switch_message(false), "Switched to Runtime Configuration");
}

#[test]
fn zone_chooser_starts_on_current_zone() {
    let zones = strings(&["block", "home", "public", "home"]);
    assert_eq!(initial_zone_selection(&zones, &s("home")), Some(1));
    assert_eq!(initial_zone_selection(&zones, &s("dmz")), None);
    assert_eq!(entry_at(&zones, 2), Some(s("public")));
    assert_eq!(entry_at(&zones, 4), None);
    assert_eq!(entry_at(&zones, u32::MAX), None);
}

#[test]
fn protocols_on_offer() {
    let all: Vec<String> = (0..4).map(protocol_choice).collect();
    assert_eq!(all, strings(&["tcp", "udp", "sctp", "dccp"]));
}

#[test]
fn new_service_settings() {
    let c = new_service_config("myapp", "My app", vec![(s("8080"), s("tcp"))]);
    assert_eq!(c.version, "");
    assert_eq!(c.short, "myapp");
    assert_eq!(c.description, "My app");
    assert_eq!(c.ports, vec![(s("8080"), s("tcp"))]);
    assert!(c.modules.is_empty() && c.destinations.is_empty());
}

#[test]
fn edit_keeps_what_it_does_not_change() {
    let cur = ServiceSettings {
        version: s("1"),
        short: s("SSH"),
        description: s("old"),
        ports: vec![(s("22"), s("tcp"))],
        modules: strings(&["nf_conntrack_ssh"]),
        destinations: vec![(s("ipv4"), s("10.0.0.1"))],
        includes: strings(&["other"]),
        source_ports: vec![],
    };
    let c = edited_service_config(cur.clone(), "new", vec![(s("2222"), s("tcp"))]);
    assert_eq!(c.version, "1");
    assert_eq!(c.short, "SSH");
    assert_eq!(c.description, "new");
    assert_eq!(c.ports, vec![(s("2222"), s("tcp"))]);
    assert_eq!(c.modules, cur.modules);
    assert_eq!(c.destinations, cur.destinations);
}

#[test]
fn forward_port_titles() {
    assert_eq!(forward_port_title(&s("80"), &s("tcp"), &s("8080"), &s("")), "80/tcp -> :8080");
    assert_eq!(forward_port_title(&s("80"), &s("tcp"), &s(""), &s("10.0.0.2")), "80/tcp -> 10.0.0.2");
    assert_eq!(forward_port_title(&s("80"), &s("tcp"), &s("8080"), &s("10.0.0.2")), "80/tcp -> 10.0.0.2:8080");
    assert_eq!(count_subtitle(0), "0 items");
    assert_eq!(count_subtitle(12), "12 items");
}

fn entry(title: &str, removal: Option<ZoneEdit>) -> DetailEntry {
    DetailEntry { title: s(title), removal }
}

#[test]
fn zone_details_in_fixed_order() {
    let settings = ZoneSettings {
        short: Some(SettingValue::Text(s("Public"))),
        description: None,
        target: Some(SettingValue::Other),
        services: Some(SettingValue::Names(strings(&["ssh"]))),
        ports: Some(SettingValue::Ports(vec![(s("80"), s("tcp"))])),
        sources: Some(SettingValue::Text(s("oops"))),
        forward_ports: Some(SettingValue::ForwardPorts(vec![(s("22"), s("tcp"), s("2222"), s(""))])),
        interfaces: Some(SettingValue::Names(strings(&["eth0"]))),
        masquerade: Some(SettingValue::Flag(true)),
        forward: Some(SettingValue::Flag(false)),
    };
    let zone = s("public");
    let rows = zone_details(&zone, &settings);
    let expected = vec![
        DetailRow::Field { title: s("SHORT"), subtitle: s("Public") },
        DetailRow::Group {
            title: s("SERVICES"),
            subtitle: s("1 items"),
            entries: vec![entry("ssh", Some(ZoneEdit::RemoveService { zone: zone.clone(), service: s("ssh") }))],
            add: Some(AddKind::Service),
        },
        DetailRow::Group {
            title: s("PORTS"),
            subtitle: s("1 items"),
            entries: vec![entry("80/tcp", Some(ZoneEdit::RemovePort { zone: zone.clone(), port: s("80"), protocol: s("tcp") }))],
            add: Some(AddKind::Port),
        },
        DetailRow::Group { title: s("SOURCES"), subtitle: s("0 items"), entries: vec![], add: Some(AddKind::Source) },
        DetailRow::Group {
            title: s("FORWARD PORTS"),
            subtitle: s("1 items"),
            entries: vec![entry(
                "22/tcp -> :2222",
                Some(ZoneEdit::RemoveForwardPort {
                    zone: zone.clone(),
                    port: s("22"),
                    protocol: s("tcp"),
                    to_port: s("2222"),
                    to_addr: s(""),
                }),
            )],
            add: Some(AddKind::ForwardPort),
        },
        DetailRow::Group {
            title: s("INTERFACES"),
            subtitle: s("1 items"),
            entries: vec![entry("eth0", None)],
            add: None,
        },
        DetailRow::Field { title: s("MASQUERADE"), subtitle: s("Enabled") },
        DetailRow::Field { title: s("FORWARD"), subtitle: s("Disabled") },
    ];
    assert_eq!(rows, expected);
}

#[test]
fn empty_zone_still_lists_its_groups() {
    let settings = ZoneSettings {
        short: None,
        description: None,
        target: None,
        services: None,
        ports: None,
        sources: None,
        forward_ports: None,
        interfaces: None,
        masquerade: None,
        forward: None,
    };
    let rows = zone_details(&s("block"), &settings);
    assert_eq!(rows.len(), 5);
}

#[test]
fn plain_layout_shows_settings_as_given() {
    let zone = s("home");
    let entries = vec![
        (s("target"), SettingValue::Text(s("default"))),
        (s("masquerade"), SettingValue::Flag(false)),
        (s("services"), SettingValue::Names(strings(&["mdns", "ssh"]))),
        (s("interfaces"), SettingValue::Names(strings(&["eth1"]))),
    ];
    let rows = plain_zone_details(&zone, &entries);
    assert_eq!(
        rows,
        vec![
            DetailRow::Field { title: s("target"), subtitle: s("default") },
            DetailRow::Group {
                title: s("services"),
                subtitle: s("2 items"),
                entries: vec![
                    entry("mdns", Some(ZoneEdit::RemoveService { zone: zone.clone(), service: s("mdns") })),
                    entry("ssh", Some(ZoneEdit::RemoveService { zone: zone.clone(), service: s("ssh") })),
                ],
                add: Some(AddKind::Service),
            },
            DetailRow::Group { title: s("interfaces"), subtitle: s("1 items"), entries: vec![entry("eth1", None)], add: None },
        ]
    );
}
