//! Choices in the dialogs: which zone the zone chooser starts on, which list
//! entry a chooser position picks, the protocols on offer, and what each
//! dialog asks for once it is answered.
use vstd::prelude::*;
use crate::numbers::{parse_timeout, timeout_of};
use crate::ports::{parse_ports, port_list};
use crate::zone_edit::ZoneEdit;

verus! {

/// Whether `k` is the first position of `name` in `names`.
pub open spec fn first_position(names: Seq<String>, name: Seq<char>, k: int) -> bool {
    &&& 0 <= k < names.len()
    &&& names[k]@ == name
    &&& forall|j: int| 0 <= j < k ==> names[j]@ != name
}

/// The protocols that the port dialogs offer, in their order.
pub open spec fn protocol_names() -> Seq<Seq<char>> {
    seq!["tcp"@, "udp"@, "sctp"@, "dccp"@]
}

/// Where the zone chooser starts: on the interface's current zone where the
/// list holds it (its first position, or 0 where that position does not fit
/// a `u32`); `None` where the list does not hold it, and the chooser keeps its
/// own default.
pub fn initial_zone_selection(zones: &Vec<String>, current: &String) -> (r: Option<u32>)
    ensures
        r is None <==> (forall|j: int| 0 <= j < zones@.len() ==> zones@[j]@ != current@),
        r matches Some(v) ==> exists|k: int| first_position(zones@, current@, k)
            && (if k <= u32::MAX { v == k } else { v == 0 }),
{
    let n = zones.len();
    let mut i: usize = 0;
    while i < n
        invariant
            n == zones@.len(),
            i <= n,
            forall|j: int| 0 <= j < i ==> zones@[j]@ != current@,
        decreases n - i,
    {
        if zones[i] == *current {
            assert(first_position(zones@, current@, i as int));
            if i <= u32::MAX as usize {
                return Some(i as u32);
            } else {
                return Some(0);
            }
        }
        i = i + 1;
    }
    None
}

/// The entry at a chooser position, if the list reaches that far.
pub fn entry_at(items: &Vec<String>, selected: u32) -> (r: Option<String>)
    ensures
        (selected as int) < items@.len() ==> r == Some(items@[selected as int]),
        (selected as int) >= items@.len() ==> r is None,
{
    let k = selected as usize;
    if k < items.len() {
        Some(items[k].clone())
    } else {
        None
    }
}

/// The protocol at a position of the protocol chooser.
pub fn protocol_choice(selected: u32) -> (r: String)
    requires
        selected < 4,
    ensures
        r@ == protocol_names()[selected as int],
{
    let mut r = String::new();
    if selected == 0 {
        r.append("tcp");
    } else if selected == 1 {
        r.append("udp");
    } else if selected == 2 {
        r.append("sctp");
    } else {
        r.append("dccp");
    }
    r
}


/// A service definition that the add dialog asks for.
#[derive(Debug, Clone, PartialEq, Eq)]
pub struct ServiceDraft {
    pub name: String,
    pub description: String,
    pub ports: Vec<(String, String)>,
}

/// What the edit dialog asks to write into a service definition.
#[derive(Debug, Clone, PartialEq, Eq)]
pub struct ServiceChange {
    pub description: String,
    pub ports: Vec<(String, String)>,
}

/// Whether a dialog was answered with the response `id`.
fn answered(response: &str, id: &str) -> (b: bool)
    ensures
        b == (response@ == id@),
{
    response.to_owned() == id.to_owned()
}

/// The zone change that the zone chooser asks for: on "save", the chosen
/// zone for the interface, if the position picks one.
pub fn change_zone_request(response: &str, zones: &Vec<String>, selected: u32, interface: &String) -> (r: Option<ZoneEdit>)
    ensures
        (r is Some) == (response@ == "save"@ && (selected as int) < zones@.len()),
        r matches Some(e) ==> e == (ZoneEdit::ChangeInterface { zone: zones@[selected as int], interface: *interface }),
{
    if !answered(response, "save") {
        return None;
    }
    match entry_at(zones, selected) {
        Some(zone) => Some(ZoneEdit::ChangeInterface { zone, interface: interface.clone() }),
        None => None,
    }
}

/// The service that the add-service-to-zone dialog asks to add: on "add",
/// the chosen service with the timeout that the timeout field gives, if the
/// position picks one.
pub fn add_service_to_zone_request(
    response: &str,
    zone: &String,
    services: &Vec<String>,
    selected: u32,
    timeout_text: &str,
) -> (r: Option<ZoneEdit>)
    ensures
        (r is Some) == (response@ == "add"@ && (selected as int) < services@.len()),
        r matches Some(e) ==> e == (ZoneEdit::AddService {
            zone: *zone,
            service: services@[selected as int],
            timeout: timeout_of(timeout_text@),
        }),
{
    if !answered(response, "add") {
        return None;
    }
    let timeout = parse_timeout(timeout_text);
    match entry_at(services, selected) {
        Some(service) => Some(ZoneEdit::AddService { zone: zone.clone(), service, timeout }),
        None => None,
    }
}

/// The port that the add-port dialog asks to open: on "add", with a
/// non-empty port, the chosen protocol and the timeout that the timeout field
/// gives.  The protocol position must be one on offer once "add" is chosen.
pub fn add_port_request(
    response: &str,
    zone: &String,
    port: &String,
    protocol: u32,
    timeout_text: &str,
) -> (r: Option<ZoneEdit>)
    requires
        response@ == "add"@ ==> protocol < 4,
    ensures
        (r is Some) == (response@ == "add"@ && port@.len() > 0),
        r matches Some(e) ==> e matches ZoneEdit::AddPort { zone: z, port: p, protocol: pr, timeout: t }
            && z == *zone && p == *port && pr@ == protocol_names()[protocol as int]
            && t == timeout_of(timeout_text@),
{
    if !answered(response, "add") {
        return None;
    }
    let proto = protocol_choice(protocol);
    let timeout = parse_timeout(timeout_text);
    if port.as_str().is_empty() {
        return None;
    }
    Some(ZoneEdit::AddPort { zone: zone.clone(), port: port.clone(), protocol: proto, timeout })
}

/// The source that the add-source dialog asks to add: on "add", a
/// non-empty source.
pub fn add_source_request(response: &str, zone: &String, source: &String) -> (r: Option<ZoneEdit>)
    ensures
        (r is Some) == (response@ == "add"@ && source@.len() > 0),
        r matches Some(e) ==> e == (ZoneEdit::AddSource { zone: *zone, source: *source }),
{
    if answered(response, "add") && !source.as_str().is_empty() {
        Some(ZoneEdit::AddSource { zone: zone.clone(), source: source.clone() })
    } else {
        None
    }
}

/// The forwarded port that the add-forward-port dialog asks for: on "add",
/// with a non-empty local port, the chosen protocol, the destination port and
/// address as typed, and the timeout that the timeout field gives.  The
/// protocol position must be one on offer once "add" is chosen.
pub fn add_forward_port_request(
    response: &str,
    zone: &String,
    port: &String,
    protocol: u32,
    to_port: &String,
    to_addr: &String,
    timeout_text: &str,
) -> (r: Option<ZoneEdit>)
    requires
        response@ == "add"@ ==> protocol < 4,
    ensures
        (r is Some) == (response@ == "add"@ && port@.len() > 0),
        r matches Some(e) ==> e matches ZoneEdit::AddForwardPort {
            zone: z,
            port: p,
            protocol: pr,
            to_port: tp,
            to_addr: ta,
            timeout: t,
        } && z == *zone && p == *port && pr@ == protocol_names()[protocol as int] && tp == *to_port
            && ta == *to_addr && t == timeout_of(timeout_text@),
{
    if !answered(response, "add") {
        return None;
    }
    let proto = protocol_choice(protocol);
    let timeout = parse_timeout(timeout_text);
    if port.as_str().is_empty() {
        return None;
    }
    Some(ZoneEdit::AddForwardPort {
        zone: zone.clone(),
        port: port.clone(),
        protocol: proto,
        to_port: to_port.clone(),
        to_addr: to_addr.clone(),
        timeout,
    })
}

/// The removal that a confirmation dialog asks for: the edit, on "remove".
pub fn removal_request(response: &str, edit: ZoneEdit) -> (r: Option<ZoneEdit>)
    ensures
        r == (if response@ == "remove"@ { Some(edit) } else { None }),
{
    if answered(response, "remove") {
        Some(edit)
    } else {
        None
    }
}

/// Whether a confirmation dialog asks to go ahead with a removal.
pub fn confirms_removal(response: &str) -> (b: bool)
    ensures
        b == (response@ == "remove"@),
{
    answered(response, "remove")
}

/// The service definition that the add-service dialog asks for: on "add",
/// the name and description as typed and the ports that the port field gives.
pub fn add_service_request(response: &str, name: &String, description: &String, ports_text: &str) -> (r: Option<ServiceDraft>)
    ensures
        (r is Some) == (response@ == "add"@),
        r matches Some(d) ==> d.name == *name && d.description == *description
            && d.ports.deep_view() == port_list(ports_text@),
{
    if answered(response, "add") {
        Some(ServiceDraft { name: name.clone(), description: description.clone(), ports: parse_ports(ports_text) })
    } else {
        None
    }
}

/// What the edit-service dialog asks to write: on "save", the description
/// as typed and the ports that the port field gives.
pub fn edit_service_request(response: &str, description: &String, ports_text: &str) -> (r: Option<ServiceChange>)
    ensures
        (r is Some) == (response@ == "save"@),
        r matches Some(c) ==> c.description == *description && c.ports.deep_view() == port_list(ports_text@),
{
    if answered(response, "save") {
        Some(ServiceChange { description: description.clone(), ports: parse_ports(ports_text) })
    } else {
        None
    }
}

} // verus!
