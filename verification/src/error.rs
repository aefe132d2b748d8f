//! The failure taxonomy, collected in one place.

pub use crate::data_entries::DataCollectionError;
pub use crate::result_analyzer::{CmdStanError, FileError, ParamError};
pub use crate::stan_command::ArgError;
