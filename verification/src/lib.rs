//! A small versioned registry of fixed-size genome records ("kitties") with
//! ownership and parentage tracking.
//!
//! The crate provides:
//! - a registry manager ([`Pallet`]) with deterministic id allocation and the
//!   `create` / `breed` / `transfer` request handlers;
//! - a pure genetic combiner deriving an offspring genome from two parent
//!   genomes and a random mask;
//! - a schema-migration pipeline that re-encodes every stored record when the
//!   recorded schema version is behind the compiled-in target version.
//!
//! Randomness is an injected capability: the host draws a seed and hands the
//! derived 16-byte value to `create` and `breed`, which only specify how that
//! value is consumed.

pub mod combiner;
pub mod kvmap;
pub mod migrations;
pub mod pallet;

pub use crate::combiner::combine;
pub use crate::kvmap::KvMap;
pub use crate::migrations::VERSION;
pub use crate::pallet::AccountId;
pub use crate::pallet::Error;
pub use crate::pallet::Event;
pub use crate::pallet::Kitty;
pub use crate::pallet::KittyId;
pub use crate::pallet::Pallet;
