use firewall_manager::ports::{format_ports, parse_ports};

fn pairs(v: &[(&str, &str)]) -> Vec<(String, String)> {
    v.iter().map(|(a, b)| (a.to_string(), b.to_string())).collect()
}

/// The way the service dialogs read a port list, written with std's string
/// methods, to compare against.
fn reference_parse(input: &str) -> Vec<(String, String)> {
    input
        .split(',')
        .filter_map(|s| {
            let s = s.trim();
            let mut parts = s.splitn(2, '/');
            let port = parts.next()?.trim().to_string();
            let proto = parts.next().unwrap_or("tcp").trim().to_string();
            if port.is_empty() { None } else { Some((port, proto)) }
        })
        .collect()
}

#[test]
fn parses_ports_with_protocols() {
    assert_eq!(parse_ports("80/tcp, 443/tcp"), pairs(&[("80", "tcp"), ("443", "tcp")]));
}

#[test]
fn port_without_protocol_is_tcp() {
    assert_eq!(parse_ports("8080"), pairs(&[("8080", "tcp")]));
    assert_eq!(parse_ports("53/udp,53"), pairs(&[("53", "udp"), ("53", "tcp")]));
}

#[test]
fn white_space_and_empty_entries_are_dropped() {
    assert_eq!(parse_ports(" 80 / udp ,  , 53 "), pairs(&[("80", "udp"), ("53", "tcp")]));
    assert_eq!(parse_ports(""), pairs(&[]));
    assert_eq!(parse_ports(" , ,"), pairs(&[]));
    assert_eq!(parse_ports("/udp"), pairs(&[]));
}

#[test]
fn slash_without_protocol_gives_empty_protocol() {
    assert_eq!(parse_ports("80/"), pairs(&[("80", "")]));
}

#[test]
fn only_first_slash_splits() {
    assert_eq!(parse_ports("1000-2000/tcp/x"), pairs(&[("1000-2000", "tcp/x")]));
}

#[test]
fn unicode_white_space_is_trimmed() {
    assert_eq!(parse_ports("\u{2003}22\u{00a0}/\u{3000}sctp\u{85}"), pairs(&[("22", "sctp")]));
}

#[test]
fn parse_ports_agrees_with_std_methods() {
    let samples = [
        "", ",", "a", "a/b", " a / b ", "a/b/c", "80,443", "80/tcp,,443/udp", "  ", "/", "//", "x/",
        "\t80\n/\rtcp", "é/ü, ß", "1 2/3 4", ",80", "80,", "\u{a0}\u{a0}", "p\u{2028}/\u{2029}q",
        "a,b/c,d//e, f ,/g",
    ];
    for s in samples.iter() {
        assert_eq!(parse_ports(s), reference_parse(s), "input {:?}", s);
    }
}

#[test]
fn formats_ports_for_the_edit_dialog() {
    assert_eq!(format_ports(&pairs(&[("80", "tcp"), ("443", "udp")])), "80/tcp, 443/udp");
    assert_eq!(format_ports(&pairs(&[("22", "tcp")])), "22/tcp");
    assert_eq!(format_ports(&pairs(&[])), "");
}

#[test]
fn formatted_ports_read_back_unchanged() {
    let ports = pairs(&[("80", "tcp"), ("1000-2000", "udp"), ("53", "")]);
    assert_eq!(parse_ports(&format_ports(&ports)), ports);
}

#[test]
fn ports_with_spaces_do_not_survive_the_text_form() {
    let ports = pairs(&[("80", " tcp")]);
    assert_eq!(parse_ports(&format_ports(&ports)), pairs(&[("80", "tcp")]));
}
