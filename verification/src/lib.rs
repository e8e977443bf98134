//! The logic of a terminal monitor for SatNOGS ground stations: what the
//! settings amount to, how a waterfall file is followed, how events change the
//! user interface, and what each view of the screen shows where.

pub mod event;
pub mod laws;
pub mod layout;
pub mod logs;
pub mod names;
pub mod report;
pub mod samples;
pub mod settings;
pub mod single;
pub mod station;
pub mod text;
pub mod time;
pub mod ui;
pub mod views;
pub mod waterfall;
