pub mod functions;
pub mod globals;
pub mod lists;
pub mod strings;
pub mod tables;
pub mod types;
