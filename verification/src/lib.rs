//! A verified registry of exclusive, axis-aligned spatial parcels ("land").
//!
//! The registry assigns parcels to owners, tracks ownership transfers,
//! runs a simple buy/sell marketplace, and keeps an append-only ledger of
//! ownership-affecting events.  Every operation is a method of
//! [`registry::RegistryState`], validates its inputs before mutating
//! anything, and preserves the registry invariant: land identifiers are
//! unique and below the allocation counter, no two parcels overlap, and
//! every marketplace listing refers to an existing parcel still owned by
//! its seller.
//!
//! The host process (network endpoints, caller authentication, clock) is
//! an external collaborator: it hands each operation the caller's
//! identity and the current time as plain values.

pub mod laws;
pub mod model;
pub mod queries;
pub mod registry;
pub mod spatial;
pub mod text;
pub mod types;
