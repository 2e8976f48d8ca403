//! An mdbook preprocessor core that hands every chapter to pandoc.
//!
//! The library turns the preprocessor's configuration table into pandoc's
//! extension arguments, decides whether citation processing takes part, and
//! rewrites the chapters of a book tree with the converter's output.
pub mod bibliography;
pub mod book;
pub mod config;
pub mod error;
pub mod flags;
pub mod laws;
pub mod pandoc;
pub mod settings;
pub mod version;

pub use bibliography::BibliographyConfig;
pub use book::{Book, BookItem, Chapter};
pub use config::{ConfigEntry, ConfigTable, ConfigValue};
pub use error::PandocError;
pub use flags::CompiledFlags;
pub use pandoc::{ConversionPlan, Pandoc};
pub use settings::{Feature, PandocConfig, PandocSetting};
