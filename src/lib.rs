pub mod model;
pub mod repo;
pub mod store;
pub mod table;
