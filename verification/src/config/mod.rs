//! Configuration: Quick Connect parsing, the versioned schema with profile
//! inheritance, directory discovery and the store's recovery rules.
pub mod profile_table;
pub mod quick_connect;
pub mod schema;
pub mod paths;
pub mod store;
