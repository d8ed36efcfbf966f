//! The host side of the Stonqs portfolio tracker: what the UI layer decides on its own, apart
//! from the portfolio core and from the operating system.

pub mod error;
pub mod text;
pub mod amount;
pub mod csv;
pub mod dates;
pub mod refresh;
pub mod paths;
pub mod plugins;
pub mod reader;
pub mod profiles;
pub mod settings;
pub mod names;
pub mod market;
pub mod vault;
pub mod periods;
pub mod order;
pub mod templates;
pub mod scope;
pub mod views;
pub mod demo;
pub mod secrets;
pub mod forms;
pub mod assistant;
