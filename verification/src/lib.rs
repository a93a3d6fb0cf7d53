//! Statement preparation for a MySQL-compatible server, written without I/O.
//!
//! Preparing a statement is a bounded exchange of packets over one
//! connection: a request carrying the SQL text, a response that is either a
//! server error or the counts of parameters and result columns, one
//! definition packet per parameter and per column, and, on connections that
//! did not negotiate their omission, a terminator packet after each
//! non-empty list.
//!
//! The crate holds every decision of that exchange and none of its waiting.
//! A [`prepare::PrepareSession`] is handed each decoded packet as an
//! [`prepare::Event`] and answers with the packet to read next, with the
//! finished [`statement::StatementDescriptor`], or with the error that ends
//! the call. Whoever owns the socket runs the loop, blocking or suspending as
//! it pleases; both see the same packets, the same phases and the same
//! errors.
//!
//! All contracts are stated over [`prepare::SessionModel`] and
//! [`prepare::transition`]; [`exchange`] proves what holds of whole
//! exchanges.

pub mod capabilities;
pub mod exchange;
pub mod message;
pub mod phase;
pub mod prepare;
pub mod statement;
