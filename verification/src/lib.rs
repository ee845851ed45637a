//! A voting-topic ledger core: a fixed-size binary codec for topics and
//! their options, a tagged instruction wire protocol, and the state machine
//! that applies decoded instructions to a topic buffer under authorization
//! rules.

pub mod error;
pub mod key;
pub mod util;
pub mod state;
pub mod codec;
pub mod instruction;
pub mod processor;
pub mod laws;
