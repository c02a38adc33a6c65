pub mod activity;
pub mod browser_machine;
pub mod duration;
pub mod eval;
pub mod exports;
pub mod exception;
pub mod formula;
pub mod interception;
pub mod location;
pub mod ltl_laws;
pub mod module_key;
pub mod options;
pub mod page;
pub mod properties;
pub mod quiescence;
pub mod schema;
pub mod small_string;
pub mod state;
pub mod strategy;
pub mod terminal;
pub mod terminal_grid;
pub mod text;
pub mod time;
pub mod tree;
