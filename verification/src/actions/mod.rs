//! What can be done to the links of a project. Every action decides on a
//! snapshot of the file system and hands back the project as it is to be
//! written, with the changes that it asks of the file system. Nothing is
//! touched by the action itself.

pub mod add;
pub mod identity;
pub mod locate;
pub mod manage;
pub mod outcome;
pub mod prune;
pub mod retarget;
pub mod revert;
pub mod sync;
