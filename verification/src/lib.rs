//! The rules of a birthday bot for one group chat: whose birthday is celebrated when, who may
//! save or remove one, what the bot answers to its commands and when it greets.

pub mod bot;
pub mod calendar;
pub mod elements;
pub mod greeting;
pub mod guarantees;
pub mod ids;
pub mod inmemory;
pub mod laws;
pub mod rows;
pub mod service;
pub mod text;
