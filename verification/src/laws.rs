//! What the bridge's operations are for, said of all their inputs.
//!
//! The contracts of the other modules say what each function computes. The proof
//! functions here say what that comes to: what a result must satisfy, what is read
//! back, and how two calls relate.
//!
//! [`texts`] and [`values`] are about the material, [`commands`] and [`calls`] about
//! what is sent, [`requests`] about how, [`pods`] about where to, [`messages`] and
//! [`tools`] about what the assistant is told, [`records`] and [`rows`] about what
//! is kept and shown, and [`checks`] about the check. [`operations`] and [`links`]
//! say the same of what the operations return.

use vstd::prelude::*;

pub mod calls;
pub mod checks;
pub mod commands;
pub mod links;
pub mod messages;
pub mod operations;
pub mod pods;
pub mod records;
pub mod requests;
pub mod rows;
pub mod texts;
pub mod tools;
pub mod values;
