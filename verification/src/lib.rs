//! The rules of a chat server: who may register, log in and follow a room, what
//! is read and stored of the messages, how the server is started, and how a
//! backup takes the place of its database.
//!
//! Nothing here reads a file, a socket or a database. A handler asks the library
//! what is to be done, does it, and hands back what came of it.

use vstd::prelude::*;

pub mod account;
pub mod api;
pub mod backup;
pub mod clock;
pub mod config;
pub mod headers;
pub mod limiter;
pub mod live;
pub mod messages;
pub mod password;
pub mod random;
pub mod restore;
pub mod rooms;
pub mod search;
pub mod sessions;
pub mod table;
pub mod text;

verus! {
}
