//! Loads the result files of one motorsport round into a relational schema:
//! parsing of the domain's time formats, decoding of tabular input into typed
//! records, the mapping of records to insert statements, the policy on
//! duplicate keys, and the state machine that sequences the load.

pub mod decode;
pub mod entity;
pub mod guarantees;
pub mod loader;
pub mod models;
pub mod numeral;
pub mod policy;
pub mod shapes;
pub mod statement;
pub mod tables;
pub mod timing;
