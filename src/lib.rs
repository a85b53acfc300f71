//! Priority-ordered merge of several directory trees into one virtual tree,
//! and the policies that propagate that tree to destination members.

pub mod cabinet;
pub mod conf;
pub mod member;
pub mod storage;
pub mod group;
pub mod vmem;
pub mod policy;
pub mod propagate;
pub mod symlink;
pub mod user;
