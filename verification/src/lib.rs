//! Mark and sweep garbage collection for a content addressed blob store.
//!
//! The collector decides, the caller performs: each machine of this crate is stepped with the
//! answer to its last action and hands back the next one. The caller asks the store, sleeps and
//! logs; what is marked, what is deleted and when a sweep is withheld is decided here.

pub mod chunks;
pub mod cycle;
pub mod dialogue;
pub mod digest;
pub mod event;
pub mod history;
pub mod laws;
pub mod mark;
pub mod phases;
mod poses;
pub mod rounds;
pub mod schedule;
pub mod serving;
pub mod set;
pub mod sweep;
pub mod terms;
pub mod text;
mod upkeep;
