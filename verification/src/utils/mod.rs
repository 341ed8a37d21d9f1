pub mod sparse_set;
pub mod const_vec;
