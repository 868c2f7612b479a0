//! What callers can hold the library to, in plain terms: each law speaks of what functions were
//! given and what they gave back, as their contracts have it.

pub mod commands;
pub mod days;
pub mod greetings;
pub mod lists;
pub mod people;
pub mod plain;
pub mod stores;
pub mod texts;
