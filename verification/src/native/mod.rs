//! Rule paths, registry values, rule catalogs and path scans.
pub mod paths;
pub mod registry;
pub mod scan;
pub mod rules;
