//! SimplePass: links, files and one-to-one chat between trusted computers on a
//! local network.
//!
//! The library holds what the program decides: whom it trusts, what it accepts
//! from whom, what it sends, and what it keeps. Windows, sockets and files are
//! left to the program around it.
//!
//! Functions whose names begin with `law_` state what holds across calls. In them
//! `call_ensures(f, args, r)` stands for a call of `f` with `args` that gave `r`;
//! what such a call changed is what its `&mut` arguments were before and are after.

pub mod chat;
pub mod clock;
pub mod codec;
pub mod discovery;
pub mod dispatch;
pub mod envelope;
pub mod files;
pub mod ids;
pub mod incoming;
pub mod keys;
pub mod links;
pub mod model;
pub mod outgoing;
pub mod peers;
pub mod roster;
pub mod setup;
pub mod text;
pub mod transfers;
pub mod trust;
pub mod widget;
pub mod wire;
