//! What the zone details page shows for a zone's settings: a row for each
//! plain setting, a group for each list, with the entries that a trash button
//! removes and the kind of entry that the group's last row adds.
use vstd::prelude::*;
use crate::numbers::{decimal, decimal_text};
use crate::ports::port_entry_text;
use crate::zone_edit::ZoneEdit;

verus! {

/// The value of a zone setting, as far as the details page reads it.
#[derive(Debug, Clone, PartialEq, Eq)]
pub enum SettingValue {
    Text(String),
    Flag(bool),
    Names(Vec<String>),
    Ports(Vec<(String, String)>),
    ForwardPorts(Vec<(String, String, String, String)>),
    Other,
}

/// The settings of a zone that the details page shows; a setting that the
/// zone's settings leave out is `None`.
#[derive(Debug, Clone, PartialEq, Eq)]
pub struct ZoneSettings {
    pub short: Option<SettingValue>,
    pub description: Option<SettingValue>,
    pub target: Option<SettingValue>,
    pub services: Option<SettingValue>,
    pub ports: Option<SettingValue>,
    pub sources: Option<SettingValue>,
    pub forward_ports: Option<SettingValue>,
    pub interfaces: Option<SettingValue>,
    pub masquerade: Option<SettingValue>,
    pub forward: Option<SettingValue>,
}

/// The kind of entry that a group's last row offers to add.
#[derive(Debug, Clone, PartialEq, Eq)]
pub enum AddKind {
    Service,
    Source,
    Port,
    ForwardPort,
}

/// An entry of a group: its title, and the edit that its trash button asks
/// for, where it has one.
#[derive(Debug, Clone, PartialEq, Eq)]
pub struct DetailEntry {
    pub title: String,
    pub removal: Option<ZoneEdit>,
}

/// A row of the details page.
#[derive(Debug, Clone, PartialEq, Eq)]
pub enum DetailRow {
    /// A setting with one value.
    Field { title: String, subtitle: String },
    /// A list setting, with its entries and, where it has one, a row that adds.
    Group { title: String, subtitle: String, entries: Vec<DetailEntry>, add: Option<AddKind> },
}

/// A row as the page shows it.
pub enum RowView {
    Field { title: Seq<char>, subtitle: Seq<char> },
    Group {
        title: Seq<char>,
        subtitle: Seq<char>,
        entries: Seq<(Seq<char>, Option<ZoneEdit>)>,
        add: Option<AddKind>,
    },
}

impl View for DetailEntry {
    type V = (Seq<char>, Option<ZoneEdit>);

    open spec fn view(&self) -> (Seq<char>, Option<ZoneEdit>) {
        (self.title@, self.removal)
    }
}

impl View for DetailRow {
    type V = RowView;

    open spec fn view(&self) -> RowView {
        match self {
            DetailRow::Field { title, subtitle } => RowView::Field { title: title@, subtitle: subtitle@ },
            DetailRow::Group { title, subtitle, entries, add } => RowView::Group {
                title: title@,
                subtitle: subtitle@,
                entries: entries@.map_values(|e: DetailEntry| e@),
                add: *add,
            },
        }
    }
}

/// The rows as the page shows them.
pub open spec fn rows_view(rows: Seq<DetailRow>) -> Seq<RowView> {
    rows.map_values(|r: DetailRow| r@)
}

/// The subtitle of a group of `n` entries.
pub open spec fn count_text(n: nat) -> Seq<char> {
    decimal(n) + " items"@
}

/// The title of a forwarded port: where it comes in, and where it goes.
pub open spec fn forward_title(port: Seq<char>, proto: Seq<char>, to_port: Seq<char>, to_addr: Seq<char>) -> Seq<char> {
    let head = port + "/"@ + proto + " -> "@;
    if to_addr.len() == 0 {
        head + ":"@ + to_port
    } else if to_port.len() == 0 {
        head + to_addr
    } else {
        head + to_addr + ":"@ + to_port
    }
}

/// The row of a plain setting, if its value is text or a flag.
pub open spec fn field_rows(title: Seq<char>, v: Option<SettingValue>) -> Seq<RowView> {
    match v {
        Some(SettingValue::Text(s)) => seq![RowView::Field { title, subtitle: s@ }],
        Some(SettingValue::Flag(b)) => seq![RowView::Field {
            title,
            subtitle: if b { "Enabled"@ } else { "Disabled"@ },
        }],
        _ => Seq::empty(),
    }
}

/// The names that a list setting holds; none where it holds something else.
pub open spec fn names_of(v: Option<SettingValue>) -> Seq<String> {
    match v {
        Some(SettingValue::Names(n)) => n@,
        _ => Seq::empty(),
    }
}

pub open spec fn ports_of(v: Option<SettingValue>) -> Seq<(String, String)> {
    match v {
        Some(SettingValue::Ports(p)) => p@,
        _ => Seq::empty(),
    }
}

pub open spec fn forwards_of(v: Option<SettingValue>) -> Seq<(String, String, String, String)> {
    match v {
        Some(SettingValue::ForwardPorts(p)) => p@,
        _ => Seq::empty(),
    }
}

/// What a list of names is in a zone: services and sources can be removed
/// and added, interfaces are only listed.
#[derive(Debug, Clone, PartialEq, Eq)]
pub enum NameList {
    Services,
    Sources,
    Interfaces,
}

/// The edit that removes a name of a list from a zone.
pub open spec fn name_removal(list: NameList, zone: String, name: String) -> Option<ZoneEdit> {
    match list {
        NameList::Services => Some(ZoneEdit::RemoveService { zone, service: name }),
        NameList::Sources => Some(ZoneEdit::RemoveSource { zone, source: name }),
        NameList::Interfaces => None,
    }
}

pub open spec fn name_list_add(list: NameList) -> Option<AddKind> {
    match list {
        NameList::Services => Some(AddKind::Service),
        NameList::Sources => Some(AddKind::Source),
        NameList::Interfaces => None,
    }
}

pub open spec fn name_list_title(list: NameList) -> Seq<char> {
    match list {
        NameList::Services => "SERVICES"@,
        NameList::Sources => "SOURCES"@,
        NameList::Interfaces => "INTERFACES"@,
    }
}

/// The group of a list of names.
pub open spec fn names_group(list: NameList, zone: String, names: Seq<String>) -> RowView {
    RowView::Group {
        title: name_list_title(list),
        subtitle: count_text(names.len()),
        entries: names.map_values(|n: String| (n@, name_removal(list, zone, n))),
        add: name_list_add(list),
    }
}

/// The group of the open ports.
pub open spec fn ports_group(zone: String, ports: Seq<(String, String)>) -> RowView {
    RowView::Group {
        title: "PORTS"@,
        subtitle: count_text(ports.len()),
        entries: ports.map_values(|p: (String, String)| (
            port_entry_text((p.0@, p.1@)),
            Some(ZoneEdit::RemovePort { zone, port: p.0, protocol: p.1 }),
        )),
        add: Some(AddKind::Port),
    }
}

/// The group of the forwarded ports.
pub open spec fn forwards_group(zone: String, fwd: Seq<(String, String, String, String)>) -> RowView {
    RowView::Group {
        title: "FORWARD PORTS"@,
        subtitle: count_text(fwd.len()),
        entries: fwd.map_values(|f: (String, String, String, String)| (
            forward_title(f.0@, f.1@, f.2@, f.3@),
            Some(ZoneEdit::RemoveForwardPort { zone, port: f.0, protocol: f.1, to_port: f.2, to_addr: f.3 }),
        )),
        add: Some(AddKind::ForwardPort),
    }
}

/// The page for a zone: its settings in a fixed order (short name,
/// description, target, services, ports, sources, forwarded ports,
/// interfaces, masquerading, forwarding); the five lists always appear, the
/// plain settings where they hold text or a flag.
pub open spec fn zone_page(zone: String, s: ZoneSettings) -> Seq<RowView> {
    field_rows("SHORT"@, s.short) + field_rows("DESCRIPTION"@, s.description) + field_rows("TARGET"@, s.target)
        + seq![names_group(NameList::Services, zone, names_of(s.services))]
        + seq![ports_group(zone, ports_of(s.ports))]
        + seq![names_group(NameList::Sources, zone, names_of(s.sources))]
        + seq![forwards_group(zone, forwards_of(s.forward_ports))]
        + seq![names_group(NameList::Interfaces, zone, names_of(s.interfaces))]
        + field_rows("MASQUERADE"@, s.masquerade) + field_rows("FORWARD"@, s.forward)
}

fn string_of(s: &str) -> (r: String)
    ensures
        r@ == s@,
{
    s.to_owned()
}

/// The subtitle of a group of `n` entries: `<n> items`.
pub fn count_subtitle(n: usize) -> (r: String)
    ensures
        r@ == count_text(n as nat),
{
    let mut r = decimal_text(n);
    r.append(" items");
    r
}

/// The title of a forwarded port.
pub fn forward_port_title(port: &String, proto: &String, to_port: &String, to_addr: &String) -> (r: String)
    ensures
        r@ == forward_title(port@, proto@, to_port@, to_addr@),
{
    let mut r = port.clone();
    r.append("/");
    r.append(proto.as_str());
    r.append(" -> ");
    if to_addr.as_str().is_empty() {
        r.append(":");
        r.append(to_port.as_str());
    } else if to_port.as_str().is_empty() {
        r.append(to_addr.as_str());
    } else {
        r.append(to_addr.as_str());
        r.append(":");
        r.append(to_port.as_str());
    }
    r
}

fn field_rows_exec(rows: &mut Vec<DetailRow>, title: &str, v: &Option<SettingValue>)
    ensures
        rows_view(final(rows)@) == rows_view(old(rows)@) + field_rows(title@, *v),
{
    let ghost before = old(rows)@;
    match v {
        Some(SettingValue::Text(s)) => {
            rows.push(DetailRow::Field { title: string_of(title), subtitle: s.clone() });
        },
        Some(SettingValue::Flag(b)) => {
            let subtitle = if *b { string_of("Enabled") } else { string_of("Disabled") };
            rows.push(DetailRow::Field { title: string_of(title), subtitle });
        },
        _ => {},
    }
    proof {
        assert(rows_view(rows@) =~= rows_view(before) + field_rows(title@, *v));
    }
}

fn name_list_title_exec(list: &NameList) -> (r: String)
    ensures
        r@ == name_list_title(*list),
{
    match list {
        NameList::Services => string_of("SERVICES"),
        NameList::Sources => string_of("SOURCES"),
        NameList::Interfaces => string_of("INTERFACES"),
    }
}

fn names_group_exec(list: NameList, zone: &String, v: &Option<SettingValue>) -> (r: DetailRow)
    ensures
        r@ == names_group(list, *zone, names_of(*v)),
{
    let empty: Vec<String> = Vec::new();
    let names: &Vec<String> = match v {
        Some(SettingValue::Names(n)) => n,
        _ => &empty,
    };
    assert(names@ == names_of(*v));
    let mut entries: Vec<DetailEntry> = Vec::new();
    let n = names.len();
    let mut i: usize = 0;
    while i < n
        invariant
            n == names@.len(),
            i <= n,
            entries@.map_values(|e: DetailEntry| e@) == names@.take(i as int).map_values(
                |m: String| (m@, name_removal(list, *zone, m)),
            ),
        decreases n - i,
    {
        let name = names[i].clone();
        let removal = match list {
            NameList::Services => Some(ZoneEdit::RemoveService { zone: zone.clone(), service: names[i].clone() }),
            NameList::Sources => Some(ZoneEdit::RemoveSource { zone: zone.clone(), source: names[i].clone() }),
            NameList::Interfaces => None,
        };
        let ghost prev = entries@;
        let entry = DetailEntry { title: name, removal };
        assert(entry@ == (names@[i as int]@, name_removal(list, *zone, names@[i as int])));
        entries.push(entry);
        proof {
            assert(names@.take(i + 1) == names@.take(i as int).push(names@[i as int]));
            prev.lemma_push_map_commute(|e: DetailEntry| e@, entry);
            names@.take(i as int).lemma_push_map_commute(|m: String| (m@, name_removal(list, *zone, m)), names@[i as int]);
            assert(entries@.map_values(|e: DetailEntry| e@) =~= names@.take(i + 1).map_values(
                |m: String| (m@, name_removal(list, *zone, m)),
            ));
        }
        i = i + 1;
    }
    assert(names@.take(n as int) == names@);
    let add = match list {
        NameList::Services => Some(AddKind::Service),
        NameList::Sources => Some(AddKind::Source),
        NameList::Interfaces => None,
    };
    DetailRow::Group { title: name_list_title_exec(&list), subtitle: count_subtitle(n), entries, add }
}

fn ports_group_exec(zone: &String, v: &Option<SettingValue>) -> (r: DetailRow)
    ensures
        r@ == ports_group(*zone, ports_of(*v)),
{
    let empty: Vec<(String, String)> = Vec::new();
    let ports: &Vec<(String, String)> = match v {
        Some(SettingValue::Ports(p)) => p,
        _ => &empty,
    };
    assert(ports@ == ports_of(*v));
    let mut entries: Vec<DetailEntry> = Vec::new();
    let n = ports.len();
    let mut i: usize = 0;
    while i < n
        invariant
            n == ports@.len(),
            i <= n,
            entries@.map_values(|e: DetailEntry| e@) == ports@.take(i as int).map_values(
                |p: (String, String)| (
                    port_entry_text((p.0@, p.1@)),
                    Some(ZoneEdit::RemovePort { zone: *zone, port: p.0, protocol: p.1 }),
                ),
            ),
        decreases n - i,
    {
        let mut title = ports[i].0.clone();
        title.append("/");
        title.append(ports[i].1.as_str());
        proof {
            reveal_strlit("/");
            assert(title@ == port_entry_text((ports@[i as int].0@, ports@[i as int].1@)));
        }
        let removal = Some(ZoneEdit::RemovePort {
            zone: zone.clone(),
            port: ports[i].0.clone(),
            protocol: ports[i].1.clone(),
        });
        let ghost prev = entries@;
        let entry = DetailEntry { title, removal };
        entries.push(entry);
        proof {
            assert(ports@.take(i + 1) == ports@.take(i as int).push(ports@[i as int]));
            prev.lemma_push_map_commute(|e: DetailEntry| e@, entry);
            ports@.take(i as int).lemma_push_map_commute(|p: (String, String)| (
                    port_entry_text((p.0@, p.1@)),
                    Some(ZoneEdit::RemovePort { zone: *zone, port: p.0, protocol: p.1 }),
                ), ports@[i as int]);
            assert(entries@.map_values(|e: DetailEntry| e@) =~= ports@.take(i + 1).map_values(
                |p: (String, String)| (
                    port_entry_text((p.0@, p.1@)),
                    Some(ZoneEdit::RemovePort { zone: *zone, port: p.0, protocol: p.1 }),
                ),
            ));
        }
        i = i + 1;
    }
    assert(ports@.take(n as int) == ports@);
    DetailRow::Group {
        title: string_of("PORTS"),
        subtitle: count_subtitle(n),
        entries,
        add: Some(AddKind::Port),
    }
}

fn forwards_group_exec(zone: &String, v: &Option<SettingValue>) -> (r: DetailRow)
    ensures
        r@ == forwards_group(*zone, forwards_of(*v)),
{
    let empty: Vec<(String, String, String, String)> = Vec::new();
    let fwd: &Vec<(String, String, String, String)> = match v {
        Some(SettingValue::ForwardPorts(p)) => p,
        _ => &empty,
    };
    assert(fwd@ == forwards_of(*v));
    let mut entries: Vec<DetailEntry> = Vec::new();
    let n = fwd.len();
    let mut i: usize = 0;
    while i < n
        invariant
            n == fwd@.len(),
            i <= n,
            entries@.map_values(|e: DetailEntry| e@) == fwd@.take(i as int).map_values(
                |f: (String, String, String, String)| (
                    forward_title(f.0@, f.1@, f.2@, f.3@),
                    Some(ZoneEdit::RemoveForwardPort { zone: *zone, port: f.0, protocol: f.1, to_port: f.2, to_addr: f.3 }),
                ),
            ),
        decreases n - i,
    {
        let f = &fwd[i];
        let title = forward_port_title(&f.0, &f.1, &f.2, &f.3);
        let removal = Some(ZoneEdit::RemoveForwardPort {
            zone: zone.clone(),
            port: f.0.clone(),
            protocol: f.1.clone(),
            to_port: f.2.clone(),
            to_addr: f.3.clone(),
        });
        let ghost prev = entries@;
        let entry = DetailEntry { title, removal };
        entries.push(entry);
        proof {
            assert(fwd@.take(i + 1) == fwd@.take(i as int).push(fwd@[i as int]));
            prev.lemma_push_map_commute(|e: DetailEntry| e@, entry);
            fwd@.take(i as int).lemma_push_map_commute(|f: (String, String, String, String)| (
                    forward_title(f.0@, f.1@, f.2@, f.3@),
                    Some(ZoneEdit::RemoveForwardPort { zone: *zone, port: f.0, protocol: f.1, to_port: f.2, to_addr: f.3 }),
                ), fwd@[i as int]);
            assert(entries@.map_values(|e: DetailEntry| e@) =~= fwd@.take(i + 1).map_values(
                |f: (String, String, String, String)| (
                    forward_title(f.0@, f.1@, f.2@, f.3@),
                    Some(ZoneEdit::RemoveForwardPort { zone: *zone, port: f.0, protocol: f.1, to_port: f.2, to_addr: f.3 }),
                ),
            ));
        }
        i = i + 1;
    }
    assert(fwd@.take(n as int) == fwd@);
    DetailRow::Group {
        title: string_of("FORWARD PORTS"),
        subtitle: count_subtitle(n),
        entries,
        add: Some(AddKind::ForwardPort),
    }
}

fn push_row(rows: &mut Vec<DetailRow>, row: DetailRow)
    ensures
        rows_view(final(rows)@) == rows_view(old(rows)@) + seq![row@],
{
    rows.push(row);
    proof {
        assert(rows_view(rows@) =~= rows_view(old(rows)@) + seq![row@]);
    }
}

/// The rows of the details page of a zone with the given settings.
pub fn zone_details(zone: &String, settings: &ZoneSettings) -> (r: Vec<DetailRow>)
    ensures
        rows_view(r@) == zone_page(*zone, *settings),
{
    let mut rows: Vec<DetailRow> = Vec::new();
    assert(rows_view(rows@) == Seq::<RowView>::empty());
    field_rows_exec(&mut rows, "SHORT", &settings.short);
    field_rows_exec(&mut rows, "DESCRIPTION", &settings.description);
    field_rows_exec(&mut rows, "TARGET", &settings.target);
    push_row(&mut rows, names_group_exec(NameList::Services, zone, &settings.services));
    push_row(&mut rows, ports_group_exec(zone, &settings.ports));
    push_row(&mut rows, names_group_exec(NameList::Sources, zone, &settings.sources));
    push_row(&mut rows, forwards_group_exec(zone, &settings.forward_ports));
    push_row(&mut rows, names_group_exec(NameList::Interfaces, zone, &settings.interfaces));
    field_rows_exec(&mut rows, "MASQUERADE", &settings.masquerade);
    field_rows_exec(&mut rows, "FORWARD", &settings.forward);
    proof {
        assert(Seq::<RowView>::empty() + field_rows("SHORT"@, settings.short) == field_rows("SHORT"@, settings.short));
    }
    rows
}


/// The rows that the single-window layout shows for one setting, named by
/// its key: text as a row, a list of names as a group whose entries can be
/// removed, and added to, when the key is `services`; other values not at all.
pub open spec fn plain_rows_of(zone: String, key: String, v: SettingValue) -> Seq<RowView> {
    match v {
        SettingValue::Text(s) => seq![RowView::Field { title: key@, subtitle: s@ }],
        SettingValue::Names(n) => {
            let services = key@ == "services"@;
            seq![RowView::Group {
                title: key@,
                subtitle: count_text(n@.len()),
                entries: n@.map_values(|m: String| (
                    m@,
                    if services { Some(ZoneEdit::RemoveService { zone, service: m }) } else { None },
                )),
                add: if services { Some(AddKind::Service) } else { None },
            }]
        },
        _ => Seq::empty(),
    }
}

/// The rows of the single-window layout for settings in the order given.
pub open spec fn plain_page(zone: String, entries: Seq<(String, SettingValue)>) -> Seq<RowView>
    decreases entries.len(),
{
    if entries.len() == 0 {
        Seq::empty()
    } else {
        plain_page(zone, entries.drop_last()) + plain_rows_of(zone, entries.last().0, entries.last().1)
    }
}

fn is_services_key(key: &String) -> (b: bool)
    ensures
        b == (key@ == "services"@),
{
    *key == string_of("services")
}

/// The rows of the single-window layout's details page: the zone's settings
/// in the order given.
pub fn plain_zone_details(zone: &String, entries: &Vec<(String, SettingValue)>) -> (r: Vec<DetailRow>)
    ensures
        rows_view(r@) == plain_page(*zone, entries@),
{
    let mut rows: Vec<DetailRow> = Vec::new();
    let n = entries.len();
    let mut i: usize = 0;
    assert(entries@.take(0) == Seq::<(String, SettingValue)>::empty());
    while i < n
        invariant
            n == entries@.len(),
            i <= n,
            rows_view(rows@) == plain_page(*zone, entries@.take(i as int)),
        decreases n - i,
    {
        let key = &entries[i].0;
        proof {
            assert(entries@.take(i + 1).drop_last() == entries@.take(i as int));
            assert(entries@.take(i + 1).last() == entries@[i as int]);
        }
        match &entries[i].1 {
            SettingValue::Text(s) => {
                push_row(&mut rows, DetailRow::Field { title: key.clone(), subtitle: s.clone() });
            },
            SettingValue::Names(names) => {
                let services = is_services_key(key);
                let mut items: Vec<DetailEntry> = Vec::new();
                let m = names.len();
                let mut j: usize = 0;
                while j < m
                    invariant
                        m == names@.len(),
                        j <= m,
                        items@.map_values(|e: DetailEntry| e@) == names@.take(j as int).map_values(
                            |x: String| (
                                x@,
                                if services { Some(ZoneEdit::RemoveService { zone: *zone, service: x }) } else { None },
                            ),
                        ),
                    decreases m - j,
                {
                    let removal = if services {
                        Some(ZoneEdit::RemoveService { zone: zone.clone(), service: names[j].clone() })
                    } else {
                        None
                    };
                    let ghost prev = items@;
                    let item = DetailEntry { title: names[j].clone(), removal };
                    items.push(item);
                    proof {
                        assert(names@.take(j + 1) == names@.take(j as int).push(names@[j as int]));
                        prev.lemma_push_map_commute(|e: DetailEntry| e@, item);
                        names@.take(j as int).lemma_push_map_commute(
                            |x: String| (
                                x@,
                                if services { Some(ZoneEdit::RemoveService { zone: *zone, service: x }) } else { None },
                            ),
                            names@[j as int],
                        );
                    }
                    j = j + 1;
                }
                assert(names@.take(m as int) == names@);
                let add = if services { Some(AddKind::Service) } else { None };
                push_row(&mut rows, DetailRow::Group {
                    title: key.clone(),
                    subtitle: count_subtitle(m),
                    entries: items,
                    add,
                });
            },
            _ => {
                assert(rows_view(rows@) + Seq::<RowView>::empty() == rows_view(rows@));
            },
        }
        i = i + 1;
    }
    assert(entries@.take(n as int) == entries@);
    rows
}

/// The service that a removal of a service names (unspecified for any other edit).
pub open spec fn removed_name(e: Option<ZoneEdit>) -> String {
    match e {
        Some(ZoneEdit::RemoveService { service, .. }) => service,
        _ => arbitrary(),
    }
}

/// Whether a row of the single-window layout offers what its key allows:
/// a group offers removals and an add row exactly when its key is
/// `services`, and each removal there removes that entry's service from the
/// zone; other groups have no trash buttons and no add row.
pub open spec fn plain_row_fits(zone: String, r: RowView) -> bool {
    match r {
        RowView::Field { .. } => true,
        RowView::Group { title, entries, add, .. } => if title == "services"@ {
            &&& add == Some(AddKind::Service)
            &&& forall|i: int| 0 <= i < entries.len() ==> (#[trigger] entries[i]).1 == Some(
                ZoneEdit::RemoveService { zone, service: removed_name(entries[i].1) },
            ) && removed_name(entries[i].1)@ == entries[i].0
        } else {
            &&& add is None
            &&& forall|i: int| 0 <= i < entries.len() ==> (#[trigger] entries[i]).1 is None
        },
    }
}

proof fn lemma_plain_rows_fit(zone: String, key: String, v: SettingValue)
    ensures
        forall|k: int| 0 <= k < plain_rows_of(zone, key, v).len() ==> plain_row_fits(zone, #[trigger] plain_rows_of(zone, key, v)[k]),
{
    match v {
        SettingValue::Names(n) => {
            let services = key@ == "services"@;
            let es = n@.map_values(|m: String| (
                m@,
                if services { Some(ZoneEdit::RemoveService { zone, service: m }) } else { None },
            ));
            assert forall|i: int| 0 <= i < es.len() implies #[trigger] es[i] == (
                n@[i]@,
                if services { Some(ZoneEdit::RemoveService { zone, service: n@[i] }) } else { None },
            ) by {}
            let row = plain_rows_of(zone, key, v)[0];
            assert(plain_row_fits(zone, row));
        },
        _ => {},
    }
}

/// In the single-window layout only the `services` group has trash buttons
/// and an add row, and each of its trash buttons removes that service from
/// the zone shown: a list under any other key (sources, interfaces, ...)
/// is shown with neither.
pub proof fn law_plain_page_removals_only_for_services(zone: String, entries: Seq<(String, SettingValue)>)
    ensures
        forall|k: int| 0 <= k < plain_page(zone, entries).len() ==> plain_row_fits(zone, #[trigger] plain_page(zone, entries)[k]),
    decreases entries.len(),
{
    if entries.len() > 0 {
        let d = entries.drop_last();
        law_plain_page_removals_only_for_services(zone, d);
        let prev = plain_page(zone, d);
        let last = plain_rows_of(zone, entries.last().0, entries.last().1);
        lemma_plain_rows_fit(zone, entries.last().0, entries.last().1);
        let page = plain_page(zone, entries);
        assert(page == prev + last);
        assert forall|k: int| 0 <= k < page.len() implies plain_row_fits(zone, #[trigger] page[k]) by {
            if k < prev.len() {
                assert(page[k] == prev[k]);
            } else {
                assert(page[k] == last[k - prev.len()]);
            }
        }
    }
}

/// One where a plain setting holds text or a flag, which the page shows as
/// a row; none otherwise.
pub open spec fn shown(v: Option<SettingValue>) -> nat {
    match v {
        Some(SettingValue::Text(_)) => 1,
        Some(SettingValue::Flag(_)) => 1,
        _ => 0,
    }
}

/// How a flag reads on the page.
pub open spec fn flag_text(b: bool) -> Seq<char> {
    if b { "Enabled"@ } else { "Disabled"@ }
}

/// Every plain setting of a zone that holds text or a flag appears on its
/// page as a row titled by the setting's name in capitals, with the text, or
/// "Enabled" / "Disabled", as its subtitle; and the page holds one row for
/// each such setting and one for each of the five lists, nothing more.
pub proof fn law_zone_page_shows_plain_settings(zone: String, s: ZoneSettings)
    ensures
        zone_page(zone, s).len() == 5 + shown(s.short) + shown(s.description) + shown(s.target)
            + shown(s.masquerade) + shown(s.forward),
        (s.short matches Some(SettingValue::Text(t)) ==> zone_page(zone, s).contains(
            RowView::Field { title: "SHORT"@, subtitle: t@ },
        )),
        (s.description matches Some(SettingValue::Text(t)) ==> zone_page(zone, s).contains(
            RowView::Field { title: "DESCRIPTION"@, subtitle: t@ },
        )),
        (s.target matches Some(SettingValue::Text(t)) ==> zone_page(zone, s).contains(
            RowView::Field { title: "TARGET"@, subtitle: t@ },
        )),
        (s.masquerade matches Some(SettingValue::Text(t)) ==> zone_page(zone, s).contains(
            RowView::Field { title: "MASQUERADE"@, subtitle: t@ },
        )),
        (s.forward matches Some(SettingValue::Text(t)) ==> zone_page(zone, s).contains(
            RowView::Field { title: "FORWARD"@, subtitle: t@ },
        )),
        (s.short matches Some(SettingValue::Flag(b)) ==> zone_page(zone, s).contains(
            RowView::Field { title: "SHORT"@, subtitle: flag_text(b) },
        )),
        (s.description matches Some(SettingValue::Flag(b)) ==> zone_page(zone, s).contains(
            RowView::Field { title: "DESCRIPTION"@, subtitle: flag_text(b) },
        )),
        (s.target matches Some(SettingValue::Flag(b)) ==> zone_page(zone, s).contains(
            RowView::Field { title: "TARGET"@, subtitle: flag_text(b) },
        )),
        (s.masquerade matches Some(SettingValue::Flag(b)) ==> zone_page(zone, s).contains(
            RowView::Field { title: "MASQUERADE"@, subtitle: flag_text(b) },
        )),
        (s.forward matches Some(SettingValue::Flag(b)) ==> zone_page(zone, s).contains(
            RowView::Field { title: "FORWARD"@, subtitle: flag_text(b) },
        )),
{
    let a = field_rows("SHORT"@, s.short);
    let b = field_rows("DESCRIPTION"@, s.description);
    let c = field_rows("TARGET"@, s.target);
    let g = seq![names_group(NameList::Services, zone, names_of(s.services))]
        + seq![ports_group(zone, ports_of(s.ports))]
        + seq![names_group(NameList::Sources, zone, names_of(s.sources))]
        + seq![forwards_group(zone, forwards_of(s.forward_ports))]
        + seq![names_group(NameList::Interfaces, zone, names_of(s.interfaces))];
    let d = field_rows("MASQUERADE"@, s.masquerade);
    let e = field_rows("FORWARD"@, s.forward);
    let page = zone_page(zone, s);
    assert(page =~= a + b + c + g + d + e);
    assert(a.len() == shown(s.short));
    assert(b.len() == shown(s.description));
    assert(c.len() == shown(s.target));
    assert(d.len() == shown(s.masquerade));
    assert(e.len() == shown(s.forward));
    assert(g.len() == 5);
    if a.len() == 1 {
        assert(page[0] == a[0]);
    }
    if b.len() == 1 {
        assert(page[a.len() as int] == b[0]);
    }
    if c.len() == 1 {
        assert(page[(a.len() + b.len()) as int] == c[0]);
    }
    if d.len() == 1 {
        assert(page[(a.len() + b.len() + c.len() + 5) as int] == d[0]);
    }
    if e.len() == 1 {
        assert(page[(a.len() + b.len() + c.len() + 5 + d.len()) as int] == e[0]);
    }
}

/// Whether the trash button of an entry, in a group with the given title,
/// removes that very entry from the zone shown, by the kind of edit that
/// the group's list asks for: a service from SERVICES, a source from
/// SOURCES, a port from PORTS, a forwarded port from FORWARD PORTS; in any
/// other group an entry has no trash button.
pub open spec fn removal_fits(zone: String, title: Seq<char>, entry: (Seq<char>, Option<ZoneEdit>)) -> bool {
    match entry.1 {
        Some(ZoneEdit::RemoveService { zone: z, service }) => title == "SERVICES"@ && z == zone && service@
            == entry.0,
        Some(ZoneEdit::RemoveSource { zone: z, source }) => title == "SOURCES"@ && z == zone && source@ == entry.0,
        Some(ZoneEdit::RemovePort { zone: z, port, protocol }) => title == "PORTS"@ && z == zone && port@
            + seq!['/'] + protocol@ == entry.0,
        Some(ZoneEdit::RemoveForwardPort { zone: z, port, protocol, to_port, to_addr }) => title
            == "FORWARD PORTS"@ && z == zone && forward_title(port@, protocol@, to_port@, to_addr@) == entry.0,
        Some(_) => false,
        None => title != "SERVICES"@ && title != "SOURCES"@ && title != "PORTS"@ && title != "FORWARD PORTS"@,
    }
}

/// The kind of entry that the last row of a group with the given title adds.
pub open spec fn add_fits(title: Seq<char>, add: Option<AddKind>) -> bool {
    if title == "SERVICES"@ {
        add == Some(AddKind::Service)
    } else if title == "SOURCES"@ {
        add == Some(AddKind::Source)
    } else if title == "PORTS"@ {
        add == Some(AddKind::Port)
    } else if title == "FORWARD PORTS"@ {
        add == Some(AddKind::ForwardPort)
    } else {
        add is None
    }
}

/// Whether every removal and the add row of a row fit its group.
pub open spec fn group_fits(zone: String, r: RowView) -> bool {
    match r {
        RowView::Field { .. } => true,
        RowView::Group { title, entries, add, .. } => add_fits(title, add) && forall|i: int|
            0 <= i < entries.len() ==> removal_fits(zone, title, #[trigger] entries[i]),
    }
}

proof fn lemma_titles_differ()
    ensures
        "SERVICES"@ != "SOURCES"@,
        "SERVICES"@ != "PORTS"@,
        "SERVICES"@ != "FORWARD PORTS"@,
        "SERVICES"@ != "INTERFACES"@,
        "SOURCES"@ != "PORTS"@,
        "SOURCES"@ != "FORWARD PORTS"@,
        "SOURCES"@ != "INTERFACES"@,
        "PORTS"@ != "FORWARD PORTS"@,
        "PORTS"@ != "INTERFACES"@,
        "FORWARD PORTS"@ != "INTERFACES"@,
{
    reveal_strlit("SERVICES");
    reveal_strlit("SOURCES");
    reveal_strlit("PORTS");
    reveal_strlit("FORWARD PORTS");
    reveal_strlit("INTERFACES");
    assert("SERVICES"@.len() == 8);
    assert("SOURCES"@.len() == 7);
    assert("PORTS"@.len() == 5);
    assert("FORWARD PORTS"@.len() == 13);
    assert("INTERFACES"@.len() == 10);
}

proof fn lemma_names_group_fits(list: NameList, zone: String, names: Seq<String>)
    ensures
        group_fits(zone, names_group(list, zone, names)),
{
    lemma_titles_differ();
    let es = names.map_values(|n: String| (n@, name_removal(list, zone, n)));
    assert forall|i: int| 0 <= i < es.len() implies removal_fits(zone, name_list_title(list), #[trigger] es[i]) by {
        assert(es[i] == (names[i]@, name_removal(list, zone, names[i])));
    }
}

/// On a zone's details page the trash button of each entry removes that
/// entry from that zone, by the edit of its group's kind (a service from
/// SERVICES, a source from SOURCES, a port from PORTS, a forwarded port from
/// FORWARD PORTS; interfaces have none), and each group's add row adds an
/// entry of the group's kind.
pub proof fn law_zone_page_removals_match_groups(zone: String, s: ZoneSettings)
    ensures
        forall|k: int| 0 <= k < zone_page(zone, s).len() ==> group_fits(zone, #[trigger] zone_page(zone, s)[k]),
{
    lemma_titles_differ();
    lemma_names_group_fits(NameList::Services, zone, names_of(s.services));
    lemma_names_group_fits(NameList::Sources, zone, names_of(s.sources));
    lemma_names_group_fits(NameList::Interfaces, zone, names_of(s.interfaces));
    let ps = ports_of(s.ports);
    let pg = ports_group(zone, ps);
    if let RowView::Group { title, entries, add, .. } = pg {
        assert forall|i: int| 0 <= i < entries.len() implies removal_fits(zone, title, #[trigger] entries[i]) by {
            assert(entries[i] == (
                port_entry_text((ps[i].0@, ps[i].1@)),
                Some(ZoneEdit::RemovePort { zone, port: ps[i].0, protocol: ps[i].1 }),
            ));
        }
    }
    assert(group_fits(zone, pg));
    let fs = forwards_of(s.forward_ports);
    let fg = forwards_group(zone, fs);
    if let RowView::Group { title, entries, add, .. } = fg {
        assert forall|i: int| 0 <= i < entries.len() implies removal_fits(zone, title, #[trigger] entries[i]) by {
            assert(entries[i] == (
                forward_title(fs[i].0@, fs[i].1@, fs[i].2@, fs[i].3@),
                Some(ZoneEdit::RemoveForwardPort { zone, port: fs[i].0, protocol: fs[i].1, to_port: fs[i].2, to_addr: fs[i].3 }),
            ));
        }
    }
    assert(group_fits(zone, fg));
    let a = field_rows("SHORT"@, s.short) + field_rows("DESCRIPTION"@, s.description) + field_rows("TARGET"@, s.target);
    let g = seq![names_group(NameList::Services, zone, names_of(s.services))]
        + seq![pg]
        + seq![names_group(NameList::Sources, zone, names_of(s.sources))]
        + seq![fg]
        + seq![names_group(NameList::Interfaces, zone, names_of(s.interfaces))];
    let d = field_rows("MASQUERADE"@, s.masquerade) + field_rows("FORWARD"@, s.forward);
    let page = zone_page(zone, s);
    assert(page =~= a + g + d);
    assert forall|k: int| 0 <= k < page.len() implies group_fits(zone, #[trigger] page[k]) by {
        if k < a.len() {
            assert(page[k] == a[k]);
            assert(a[k] is Field);
        } else if k < a.len() + 5 {
            assert(page[k] == g[k - a.len()]);
        } else {
            assert(page[k] == d[k - a.len() - 5]);
            assert(d[k - a.len() - 5] is Field);
        }
    }
}

} // verus!
