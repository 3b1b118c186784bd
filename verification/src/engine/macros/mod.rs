//! Building blocks for worlds that are laid out as a list of storages.

pub mod hlist;
