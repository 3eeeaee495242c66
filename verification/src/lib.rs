//! Fourth Age MUD: the game model, the entity registry, command parsing and
//! command handling, with their contracts.

pub mod model;
pub mod text;
pub mod entities;
pub mod event;
pub mod data;
pub mod db;
pub mod command;
pub mod session;
pub mod seed;
pub mod persistence;
pub mod history;
