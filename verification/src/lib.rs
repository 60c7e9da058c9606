//! Verified core of a desktop music player: quality grading, library
//! grouping, playback state machines and the playback worker protocol.

pub mod text;
pub mod model;
pub mod quality;
pub mod keys;
pub mod time;
pub mod clock;
pub mod controller;
pub mod playback;
pub mod advance;
pub mod runtime;
pub mod textorder;
pub mod artists;
pub mod browse;
pub mod transfer;
pub mod notifications;
pub mod discover;
pub mod session;
pub mod search;
pub mod keyed;
pub mod catalog;
pub mod rows;
pub mod ui;
pub mod feedback;
pub mod visual;
pub mod textinput;
pub mod albumgroups;
pub mod sources;
pub mod openurl;
pub mod downloads;
pub mod nowplaying;
pub mod prompts;
pub mod importreview;
pub mod transport;
pub mod visible;
pub mod output;
pub mod requests;
pub mod intents;
pub mod reviewinputs;
pub mod libraryops;
pub mod icons;
pub mod artwork;
pub mod worker;
pub mod trackrows;
