//! An in-memory index of a directory of plain-text notes (a "vault").
//!
//! The library discovers note files, extracts the metadata header of each,
//! parses the `tags:` declarations out of that header, and answers queries
//! over the resulting tag-to-note relation.

pub mod error;
pub mod events;
pub mod laws;
pub mod paths;
pub mod tags;
pub mod text;
pub mod vault;

pub use error::Error;
pub use error::Result;
pub use vault::Note;
pub use vault::State;
pub use vault::Vault;
pub use vault::VaultEntry;
