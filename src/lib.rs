//! A continuous radio broadcaster: a play-queue scheduler, an MPEG audio
//! frame aligner, a fan-out registry of listeners and the playback engine
//! that ties them together.

pub mod track;
pub mod manager;
pub mod frame;
pub mod registry;
pub mod engine;
pub mod api;
