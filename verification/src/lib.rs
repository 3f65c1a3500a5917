//! Camera pipeline orchestrator: a verified core for a multi-camera video
//! management backend. It models the persistent registry (cameras,
//! recordings, encoder settings, recording schedules), the process
//! supervisor's stream and recording maps, the encoder selection policy,
//! the ONVIF protocol messages and their parsers, and the cron schedule
//! bookkeeping.

pub mod args;
pub mod assoc;
pub mod clock;
pub mod cron;
pub mod encoder;
pub mod errors;
pub mod facade;
pub mod gpu;
pub mod models;
pub mod onvif;
pub mod outside;
pub mod percent;
pub mod plugin;
pub mod registry;
pub mod strutil;
pub mod uvc;
pub mod xmlscan;
