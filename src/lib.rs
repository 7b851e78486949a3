//! Market-data feed workers: the per-feed dispatch pipeline that subscribes to a
//! streaming feed, decodes each inbound frame and republishes it onto a durable
//! stream, with the wire forms it sends and the decisions it takes per frame.
use vstd::prelude::*;

pub mod config;
pub mod json;
pub mod message;
pub mod publish;
pub mod dispatch;
pub mod run;
