pub mod sparse_vec;
pub mod store;
pub mod view;
pub mod world;
