//! Tag identifiers of the device protocol that the bridge asks for and
//! reads, one module per namespace. The top byte of a tag is its namespace.

pub mod bat;
pub mod db;
pub mod ems;
pub mod info;
