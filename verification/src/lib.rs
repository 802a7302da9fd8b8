//! Aggregation of a package ecosystem snapshot: the catalog of formulae and
//! casks, what is installed of it, and the partitioning of install and
//! uninstall requests by kind.

pub mod aggregate;
pub mod brew;
pub mod cli;
pub mod info;
pub mod models;
pub mod names;
pub mod registry;
pub mod scan;
pub mod store;
pub mod text;
