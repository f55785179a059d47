pub mod text;
pub mod order;
pub mod members;
pub mod scan;
pub mod categories;
pub mod resolve;
pub mod change;
pub mod classify;
pub mod manifest;
pub mod params;
pub mod options;
pub mod context;
pub mod config;
pub mod diffstat;
pub mod table_facts;
pub mod laws;
