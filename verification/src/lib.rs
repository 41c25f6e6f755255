//! Moderation rules for a chat server: word and pattern filters, punishment
//! descriptions, duration texts such as `1d12h`, and paging of rule lists.

pub mod commands;
pub mod handler;
pub mod messages;
pub mod mongo;
pub mod scanners;
pub mod utils;
