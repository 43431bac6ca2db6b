pub mod ot;
pub mod structs;
pub mod text;
pub mod document;
pub mod mem_redis;
pub mod mem_db;
pub mod project;
pub mod persist;
