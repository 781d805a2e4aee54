//! Core logic of an ephemeral LAN upload server: filename sanitization and
//! collision resolution, the multipart upload pipeline with usage accounting,
//! the server lifecycle state machine, and the helpers that build the access
//! URL and QR image for the host application.

pub mod counters;
pub mod lifecycle;
pub mod names;
pub mod netinfo;
pub mod page;
pub mod pipeline;
pub mod qr;
pub mod storage;
pub mod text;
