pub mod loop_unrolling;
pub mod ssa;
pub mod var_set;
pub mod variable_merging;
