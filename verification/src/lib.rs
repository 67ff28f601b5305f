//! ServePoint: the rules of a bar till.
//!
//! A [`store::Store`] holds everything that a till knows. Every action takes the
//! store, is refused with a reason and changes nothing, or is done and changes
//! exactly what its contract says.

pub mod bill;
pub mod calendar;
pub mod commands;
pub mod commissioning;
pub mod laws;
pub mod ledger;
pub mod lists;
pub mod money;
pub mod printing;
pub mod repo;
pub mod report;
pub mod resolution;
pub mod settings;
pub mod settings_form;
pub mod settlement;
pub mod state;
pub mod store;
pub mod table;
pub mod tally;
pub mod text;
pub mod trading;
pub mod venue;
