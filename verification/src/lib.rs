//! Casting a desktop to the screens on a local network.
pub mod address;
pub mod audio_state;
pub mod backend;
pub mod bytes;
pub mod capture;
pub mod cast;
pub mod certificate;
pub mod discovery;
pub mod display_config;
pub mod dummy;
pub mod error;
pub mod file_server;
pub mod http;
pub mod json;
pub mod latency;
pub mod media;
pub mod media_session;
pub mod mirror;
pub mod mirror_session;
pub mod mutter;
pub mod path;
pub mod pipeline;
pub mod provider;
pub mod radio;
pub mod rtcp;
pub mod rtp;
pub mod session;
pub mod settings;
pub mod sink;
pub mod text;
