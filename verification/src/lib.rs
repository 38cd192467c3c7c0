//! A run-time text-localization store.
//!
//! A translation dataset is tabular text: the first row is a header whose
//! columns from the third on name the supported languages; every later row
//! holds a keyword, a free-text note, and one translation per language
//! column. The library parses such text into a [`table::LangTable`], resolves
//! keywords to the string of the currently selected language, defers language
//! selection until a table that knows the name arrives, and tells bound text
//! consumers when they must re-render.

pub mod binding;
pub mod coordinator;
pub mod parser;
pub mod store;
pub mod table;

pub use binding::LocalizeText;
pub use coordinator::LoadDecodeError;
pub use coordinator::Translation;
pub use parser::ParseError;
pub use store::Localize;
pub use store::StoreView;
pub use table::LangTable;
pub use table::TableView;
