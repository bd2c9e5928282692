use firewall_manager::dialogs::{
    add_forward_port_request, add_port_request, add_service_request, add_service_to_zone_request,
    add_source_request, change_zone_request, confirms_removal, edit_service_request, removal_request,
};
use firewall_manager::ports::{format_ports, parse_ports};
use firewall_manager::text::matches_query;
use firewall_manager::zone_edit::ZoneEdit;

fn s(x: &str) -> String {
    x.to_string()
}

fn strings(v: &[&str]) -> Vec<String> {
    v.iter().map(|x| x.to_string()).collect()
}

#[test]
fn empty_search_keeps_every_row() {
    assert!(matches_query("ssh", ""));
    assert!(matches_query("", ""));
}

#[test]
fn change_zone_on_save_only() {
    let zones = strings(&["home", "public"]);
    assert_eq!(
        change_zone_request("save", &zones, 1, &s("eth0")),
        Some(ZoneEdit::ChangeInterface { zone: s("public"), interface: s("eth0") })
    );
    assert_eq!(change_zone_request("cancel", &zones, 1, &s("eth0")), None);
    assert_eq!(change_zone_request("save", &zones, 2, &s("eth0")), None);
}

#[test]
fn add_service_to_zone_reads_the_timeout() {
    let services = strings(&["http", "ssh"]);
    assert_eq!(
        add_service_to_zone_request("add", &s("home"), &services, 1, "60"),
        Some(ZoneEdit::AddService { zone: s("home"), service: s("ssh"), timeout: 60 })
    );
    assert_eq!(
        add_service_to_zone_request("add", &s("home"), &services, 0, "soon"),
        Some(ZoneEdit::AddService { zone: s("home"), service: s("http"), timeout: 0 })
    );
    assert_eq!(add_service_to_zone_request("cancel", &s("home"), &services, 0, "0"), None);
    assert_eq!(add_service_to_zone_request("add", &s("home"), &strings(&[]), 0, "0"), None);
}

#[test]
fn add_port_needs_a_port() {
    assert_eq!(
        add_port_request("add", &s("dmz"), &s("8080"), 1, "0"),
        Some(ZoneEdit::AddPort { zone: s("dmz"), port: s("8080"), protocol: s("udp"), timeout: 0 })
    );
    assert_eq!(add_port_request("add", &s("dmz"), &s(""), 0, "0"), None);
    assert_eq!(add_port_request("cancel", &s("dmz"), &s("80"), u32::MAX, "0"), None);
}

#[test]
fn add_source_needs_a_source() {
    assert_eq!(
        add_source_request("add", &s("trusted"), &s("10.0.0.0/8")),
        Some(ZoneEdit::AddSource { zone: s("trusted"), source: s("10.0.0.0/8") })
    );
    assert_eq!(add_source_request("add", &s("trusted"), &s("")), None);
    assert_eq!(add_source_request("cancel", &s("trusted"), &s("10.0.0.1")), None);
}

#[test]
fn add_forward_port_keeps_destination() {
    assert_eq!(
        add_forward_port_request("add", &s("public"), &s("22"), 3, &s("2222"), &s("10.0.0.2"), "-1"),
        Some(ZoneEdit::AddForwardPort {
            zone: s("public"),
            port: s("22"),
            protocol: s("dccp"),
            to_port: s("2222"),
            to_addr: s("10.0.0.2"),
            timeout: -1,
        })
    );
    assert_eq!(add_forward_port_request("add", &s("public"), &s(""), 0, &s("1"), &s(""), "0"), None);
}

#[test]
fn removals_need_confirmation() {
    let e = ZoneEdit::RemoveSource { zone: s("home"), source: s("192.168.1.0/24") };
    assert_eq!(removal_request("remove", e.clone()), Some(e.clone()));
    assert_eq!(removal_request("cancel", e), None);
    assert!(confirms_removal("remove"));
    assert!(!confirms_removal("Remove"));
}

#[test]
fn service_dialogs_read_their_fields() {
    let d = add_service_request("add", &s("web"), &s("Web server"), "80, 443/tcp").unwrap();
    assert_eq!((d.name.as_str(), d.description.as_str()), ("web", "Web server"));
    assert_eq!(d.ports, vec![(s("80"), s("tcp")), (s("443"), s("tcp"))]);
    assert_eq!(add_service_request("cancel", &s("web"), &s(""), ""), None);
    let c = edit_service_request("save", &s("new"), " 53 / udp ").unwrap();
    assert_eq!(c.description, "new");
    assert_eq!(c.ports, vec![(s("53"), s("udp"))]);
    assert_eq!(edit_service_request("cancel", &s("new"), ""), None);
}

#[test]
fn reading_back_written_ports_gives_the_same_pairs() {
    for text in ["80/tcp,  443", " a / b / c , , d/", "x\u{3000}/\u{a0}y"] {
        let once = parse_ports(text);
        assert_eq!(parse_ports(&format_ports(&once)), once, "input {:?}", text);
        for (port, proto) in &once {
            assert!(!port.is_empty() && !port.contains('/') && !port.contains(','));
            assert_eq!(port.trim(), port);
            assert_eq!(proto.trim(), proto);
        }
    }
}
