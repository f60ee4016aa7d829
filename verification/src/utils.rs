pub mod borrow;
pub mod compact_list;
pub mod hlist;

pub use compact_list::{CompactList, Handle};
