//! Playback-state synchronization bridge for a desktop shell around a
//! music-streaming web page: the scraper script generator, the beacon
//! ingestion logic, the single-slot playback state cell, the re-injection
//! scheduler, and plugin bundle assembly.

pub mod playback;
pub mod text;
pub mod timecode;
pub mod beacon;
pub mod scripts;
pub mod plugins;
pub mod reactor;
pub mod scheduler;
pub mod settings;
pub mod discord;
pub mod lyrics;
