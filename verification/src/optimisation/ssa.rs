pub mod var_graph;
pub mod split;
