//! Verified core of the sceno overlay apps: now-playing metadata cleaning and
//! lyrics lookup keys, lyrics-library matching, lyrics-file text handling, the
//! lyrics fetch/retry state machine, and the music theory behind the vocal
//! trainer and tuner presets.
pub mod text;
pub mod query;
pub mod tracker;
pub mod library;
pub mod ultrastar;
pub mod music;
pub mod presets;
pub mod clock;
pub mod paths;
pub mod lrc;
pub mod lrclib;
pub mod nowplaying;
pub mod offsets;
pub mod onscreen;
