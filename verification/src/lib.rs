//! A bridge that makes an assistant's tool calls execute inside a microVM, or not
//! at all.
//!
//! [`mediation`] is the map from the host's built-in tools to the tools that the
//! bridge serves, and everything else follows it: [`hook`] denies the built-ins,
//! [`server`] offers the mediated tools, [`translate`] turns a call into what its
//! route reads, and [`transport`] writes the request and reads the reply.
//! [`discover`] finds a pod where none is configured, [`check`] walks the whole
//! path, [`journal`] notes what was seen, and [`statusline`] shows it. [`laws`]
//! states what all of this comes to.

use vstd::prelude::*;

pub mod check;
pub mod discover;
pub mod hook;
pub mod journal;
pub mod json;
pub mod laws;
pub mod mediation;
pub mod server;
pub mod statusline;
pub mod text;
pub mod translate;
pub mod transport;
