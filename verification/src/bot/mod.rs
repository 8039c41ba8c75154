//! In-game bot controller and native task execution.

pub mod chat;
pub mod commands;
pub mod entities;
pub mod events;
pub mod messages;
pub mod modes;
pub mod motion;
pub mod navigation;
pub mod observation;
pub mod replies;
pub mod runtime;
pub mod tasks;
pub mod validation;
