//! Extraction of structured records from a chain's execution layer into
//! schema-governed column data.
//!
//! Each dataset (blocks, transactions, balance diffs) defines how one unit of
//! raw chain data is turned into typed rows of an exclusively-owned column
//! accumulator, gated by a runtime schema descriptor that selects columns and
//! wide-integer encodings. Composed datasets fan a single fetched response out
//! to several constituent transforms so that each physical fetch happens at
//! most once per logical request.

pub mod balance_diffs;
pub mod blocks;
pub mod columns;
pub mod compose;
pub mod laws;
pub mod schema;
pub mod table;
pub mod transactions;
pub mod types;
pub mod wide;

pub use types::CollectError;
pub use types::Datatype;
pub use types::FetchRequest;
pub use types::MaterializeError;
pub use types::RequestUnit;
