//! ATLAS heartbeats: status records that the ATLAS stations send as Sutron messages.

pub mod cursor;
pub mod heartbeat;
pub mod site;
