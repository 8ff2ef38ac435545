//! Verified core of a desktop launcher: classifications and launchable
//! items, the store that holds them with its queries and changes (ordering,
//! search, settings, path conversion), and the window's behaviour as a
//! state machine from events to effects.

pub mod models;
pub mod text;
pub mod decimal;
pub mod ordering;
pub mod pattern;
pub mod data_url;
pub mod paths;
pub mod db;
pub mod native;
pub mod launch;
pub mod menus;
pub mod controller;
pub mod laws;
