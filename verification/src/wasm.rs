pub mod external;
pub mod flags;
pub mod func;
pub mod globals;
pub mod mem_layout;
pub mod module_plan;
pub mod project;
pub mod registries;
pub mod types;
