//! Telemetry from remote glacier stations.
//!
//! The stations send their status over Iridium short-burst data. A burst is
//! small, so the Sutron data loggers split a long message over several bursts:
//! `sutron` parses the payload of a burst into a packet and reassembles
//! packets into messages. The ATLAS stations send heartbeats as such
//! messages: `atlas` decodes the bytes of a message into a raw heartbeat, of
//! one of two versions, and regularizes it. `camera` reads the times of
//! remote camera images from their file names and finds the interval at which
//! a camera takes them.
//!
//! Every function states what it returns over a model of its arguments: a
//! sequence of bytes or characters, or the view of a value. The few calls
//! into other crates stand in small functions whose contracts are taken on
//! trust; each of them says so.

pub mod atlas;
pub mod camera;
pub mod order;
pub mod sutron;
pub mod text;
