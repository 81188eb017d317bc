//! The data sources that the library brings along.

pub mod either;
pub mod filesystem_source;
pub mod memory_source;
pub mod scraper_source;

pub use either::Either;
pub use filesystem_source::FSDataSource;
pub use filesystem_source::FileSystemCache;
pub use memory_source::InMemoryDataSource;
