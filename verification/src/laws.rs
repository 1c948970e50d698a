//! What holds of the library as a whole, over the models that the functions'
//! contracts speak of.

pub mod commands;
pub mod delivery;
pub mod imports;
pub mod keys;
pub mod matching;
pub mod store;
pub mod targets;
pub mod texts;
