//! The launcher's settings: the root directories that a scan starts from.

use vstd::prelude::*;

verus! {

#[derive(Debug)]
pub struct Config {
    pub search_paths: Vec<String>,
}

impl Config {
    /// The settings used when none are stored: the documents directory if it
    /// exists, else the home directory.
    pub fn default_for(home: String, documents: Option<String>) -> (r: Config)
        ensures
            r.search_paths@.len() == 1,
            r.search_paths@[0]@ == match documents {
                Some(d) => d@,
                None => home@,
            },
    {
        let root = match documents {
            Some(d) => d,
            None => home,
        };
        let mut search_paths: Vec<String> = Vec::new();
        search_paths.push(root);
        Config { search_paths }
    }
}

} // verus!
