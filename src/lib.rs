//! Session tracking for a game client's append-only log files, plus the small
//! pure helpers the desktop shell needs (version comparison, media sniffing).

pub mod events;
pub mod text;
pub mod version;
pub mod settings;
pub mod media;
pub mod bootstrap;
pub mod watch;
