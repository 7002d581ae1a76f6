//! Variable environments: a manager that owns every environment, each with
//! its bindings and an optional parent.
pub mod bindings;
pub mod manager;
