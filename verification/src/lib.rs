//! Core of a mobile softphone: gateway client, SDP, RTP media sessions and the
//! engine that holds them together.

pub mod ai;
pub mod audio;
pub mod calls;
pub mod dns;
pub mod engine;
pub mod engine_laws;
pub mod exchange;
pub mod gateway_client;
pub mod gateway_laws;
pub mod host;
pub mod media;
pub mod packet;
pub mod sdp;
pub mod sdp_laws;
pub mod table;
pub mod text;
pub mod types;
