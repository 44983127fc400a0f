//! A periodic status poller for Minecraft servers.
//!
//! The crate models one poll of a remote game server (Java or Bedrock
//! edition), the decoding of the two wire replies, and the cross-cycle
//! diffing that decides what is written to a log file.  Network and file
//! I/O live outside the library; callers hand in the raw reply text or the
//! decoded model and take formatted text back.

pub mod address;
pub mod decode;
pub mod engine;
pub mod error;
pub mod json;
pub mod model;
pub mod numfmt;
pub mod render;
pub mod textsplit;
