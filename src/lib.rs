//! A codec for physical query expressions: it turns an evaluable expression
//! tree into the tagged wire message that nodes of a distributed query engine
//! exchange, and back.

use vstd::prelude::*;

pub mod codec;
pub mod error;
pub mod expr;
pub mod operator;
pub mod record_batch;
pub mod wire;
