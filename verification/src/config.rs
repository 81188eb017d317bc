//! Settings of a client.

use vstd::prelude::*;

verus! {

/// Where the cache directory lies when none is named.
pub const DEFAULT_CACHE_PATH: &'static str = "cache/lecture_cache.json";

/// Settings of a client.
pub struct Config {
    /// Directory in which the lectures of each degree are cached as a JSON
    /// file. Without it nothing is cached.
    pub cache_path: Option<String>,
}

impl Config {
    /// Settings without a cache.
    pub fn new() -> (config: Self)
        ensures
            config.cache_path is None,
    {
        Config { cache_path: None }
    }

    /// Settings with the cache at [`DEFAULT_CACHE_PATH`].
    pub fn with_cache() -> (config: Self)
        ensures
            config.cache_path.deep_view() == Some(DEFAULT_CACHE_PATH@),
    {
        Config::new().cache_path(String::from_str(DEFAULT_CACHE_PATH))
    }

    /// The same settings with the cache at `path`.
    pub fn cache_path(self, path: String) -> (config: Self)
        ensures
            config.cache_path == Some(path),
    {
        let mut config = self;
        config.cache_path = Some(path);
        config
    }

    pub fn get_cache_path(&self) -> (path: &Option<String>)
        ensures
            path == self.cache_path,
    {
        &self.cache_path
    }
}

impl Default for Config {
    fn default() -> (config: Self)
        ensures
            config.cache_path is None,
    {
        Config::new()
    }
}

} // verus!
