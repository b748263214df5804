//! Reading the catalog of a MongoDB WiredTiger data directory: which
//! tables make up a namespace, how the catalog is listed, which catalog
//! entry a copied namespace needs, and how WiredTiger return codes are
//! classified.

pub mod catalog;
pub mod command;
pub mod copy;
pub mod document;
pub mod listing;
pub mod status;
pub mod text;
