//! Settlement coordination core of a crypto payment gateway.
//!
//! Merchants issue invoices denominated in fiat minor units (cents); payers
//! settle them in a base asset (satoshis).  This crate holds the verified
//! core of that workflow:
//!
//! - [`codec`]: decimal money strings to and from integer minor units;
//! - [`quote`]: fiat-to-satoshi conversion with a protective spread;
//! - [`oracle`]: a TTL cache with single-flight collapsing for the upstream
//!   unit price;
//! - [`ids`]: the 96-bit record identifiers used by the document store;
//! - [`invoice`], [`payment`]: the two persisted record types and their
//!   status machines;
//! - [`store`]: in-memory stores enforcing the central uniqueness invariant
//!   (at most one accepted-or-confirmed payment per invoice);
//! - [`dto`]: the request and response shapes of the interface;
//! - [`service`]: invoice creation, listing and quoting operations;
//! - [`coordinator`]: the payment-submission saga, split into phases so a
//!   caller can perform the network steps (price fetch, broadcast) between
//!   them;
//! - [`broadcast`]: the checked form of a broadcaster's reply;
//! - [`text`]: small verified string helpers.
//!
//! Everything that talks to the network, the clock or the real document
//! store lives outside this crate; callers hand the results in as plain
//! values (timestamps in milliseconds, prices in cents, fresh record ids).

pub mod broadcast;
pub mod codec;
pub mod coordinator;
pub mod dto;
pub mod ids;
pub mod invoice;
pub mod oracle;
pub mod payment;
pub mod quote;
pub mod service;
pub mod store;
pub mod text;
