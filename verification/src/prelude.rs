//! The common imports for driving the engine: data construction, the
//! error type, and the data-rendering trait.

pub use crate::data_entries::{DataCollection, DataEntries, DataEntry};
pub use crate::{StanData, StanError};
