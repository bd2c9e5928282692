//! Service definitions as the permanent configuration stores them, and the
//! settings that adding or editing a service writes.
use vstd::prelude::*;

verus! {

/// The settings of a service definition as firewalld reports them: version,
/// short name, description, ports, helper modules, destinations (by address
/// family), included services and source ports.
#[derive(Debug, Clone, PartialEq, Eq)]
pub struct ServiceSettings {
    pub version: String,
    pub short: String,
    pub description: String,
    pub ports: Vec<(String, String)>,
    pub modules: Vec<String>,
    pub destinations: Vec<(String, String)>,
    pub includes: Vec<String>,
    pub source_ports: Vec<(String, String)>,
}

/// The settings that adding or updating a service writes: version, short
/// name, description, ports, helper modules and destinations.
#[derive(Debug, Clone, PartialEq, Eq)]
pub struct ServiceConfig {
    pub version: String,
    pub short: String,
    pub description: String,
    pub ports: Vec<(String, String)>,
    pub modules: Vec<String>,
    pub destinations: Vec<(String, String)>,
}

/// The settings for a new service: its name as the short name, the given
/// description and ports, and no version, modules or destinations.
pub fn new_service_config(name: &str, description: &str, ports: Vec<(String, String)>) -> (r: ServiceConfig)
    ensures
        r.version@ == Seq::<char>::empty(),
        r.short@ == name@,
        r.description@ == description@,
        r.ports == ports,
        r.modules@.len() == 0,
        r.destinations@.len() == 0,
{
    ServiceConfig {
        version: String::new(),
        short: name.to_owned(),
        description: description.to_owned(),
        ports,
        modules: Vec::new(),
        destinations: Vec::new(),
    }
}

/// The settings that an edit writes: the service's version, short name,
/// modules and destinations as they were, with the new description and
/// ports.  Included services and source ports are not part of what is written.
pub fn edited_service_config(current: ServiceSettings, description: &str, ports: Vec<(String, String)>) -> (r: ServiceConfig)
    ensures
        r.version == current.version,
        r.short == current.short,
        r.description@ == description@,
        r.ports == ports,
        r.modules == current.modules,
        r.destinations == current.destinations,
{
    ServiceConfig {
        version: current.version,
        short: current.short,
        description: description.to_owned(),
        ports,
        modules: current.modules,
        destinations: current.destinations,
    }
}

} // verus!
