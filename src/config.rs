//! The server's settings, fixed at start-up.
use vstd::prelude::*;

verus! {

/// Where the server serves from, where it listens, and where it logs.
pub struct Config {
    /// The directory that selectors are resolved against.
    pub root: String,
    /// The address the server listens on, also written into menu lines.
    pub host: String,
    /// The port the server listens on, also written into menu lines.
    pub port: u32,
    /// The file that log records go to; standard output when absent.
    pub log: Option<String>,
}

impl Config {
    pub fn new(root: String, host: String, port: u32, log: Option<String>) -> (r: Config)
        ensures
            r.root@ == root@,
            r.host@ == host@,
            r.port == port,
            r.log == log,
    {
        Config { root, host, port, log }
    }
}

} // verus!
