pub mod sql;
pub mod text;
pub mod store;
pub mod columns;
pub mod records;
pub mod params;
pub mod statements;
pub mod search;
pub mod activity;
pub mod memory;
pub mod entity;
pub mod project;
pub mod profile;
pub mod schema;
pub mod migrate;
pub mod dashboard;
pub mod graph;
pub mod tools;
