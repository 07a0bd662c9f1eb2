//! A small versioned, namespaced document store over an ordered key-value
//! engine: binary keys that pack namespace, document id and revision into a
//! sortable fixed width, and atomic compare-and-swap writes and deletes on
//! top of them. Two conditional-write schemes coexist: the numeric
//! revision-and-owner-key scheme of [`store::Store`] and [`store_area::Area`],
//! and the opaque hash-token scheme of [`facade::Store`].
mod kv;

pub mod facade;
pub mod store;
pub mod store_area;
pub mod store_key;

pub use store::Store;
pub use store::StoreUserError;
pub use store_area::Area;
pub use store_key::DocumentId;
pub use store_key::DocumentRev;
pub use store_key::StoreKey;
