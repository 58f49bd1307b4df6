//! Interfaces for summarising collections and humanising values.

pub mod humanize_bool;
pub mod summarise_collection;

pub use humanize_bool::HumanizeBooleans;
pub use summarise_collection::SummariseCollection;
pub use summarise_collection::TallyItems;
