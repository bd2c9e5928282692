//! The logic of a firewalld manager: which configuration a request goes to,
//! the calls that edit a zone and the unsaved runtime changes they leave,
//! the listings of zones, services and interfaces, the zone details page,
//! the port lists of service definitions, and the state of the dashboard's
//! controls.  Bus calls, widgets and the file system are the application's.
pub mod text;
pub mod ports;
pub mod order;
pub mod numbers;
pub mod client;
pub mod zone_edit;
pub mod services;
pub mod dashboard;
pub mod zone_view;
pub mod dialogs;
pub mod controls;
