pub mod catalog;
pub mod config;
pub mod controller;
pub mod query;
pub mod selection;
pub mod version;
