//! Small verified collections: a singly linked list with a stable merge of
//! sorted lists, and a binary search tree over integer keys.

pub mod bst;
pub mod decimal;
pub mod list;
pub mod merge;
