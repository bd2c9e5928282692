# firewall_manager

A manager for firewalld: zones, services, interfaces and the firewall
service itself, over D-Bus, with a GTK/Adwaita interface.

- `src/` is the verified library (Verus): the client's mode and unsaved
  runtime changes, the calls that edit a zone, the sorted listings, the zone
  details page, port lists and timeouts as text, and the state of the
  dashboard's controls.
- `app/` holds the D-Bus proxies, the widgets and the conversions between
  bus values and the library's types.
- `tests/` runs the library on concrete values, and compares its text
  handling with std's on many inputs.
