//! A small vocabulary-trainer library: application state for looking up a
//! word in a remote dictionary, building the request URL, decoding the JSON
//! entry list that the service returns, and saving the state between runs.

pub mod dictionary;
pub mod entry;
pub mod json;
pub mod state;

pub use dictionary::Dictionary;
pub use entry::Entry;
pub use state::FetchError;
pub use state::VocabTrainer;
