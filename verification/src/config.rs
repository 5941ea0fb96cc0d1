use vstd::prelude::*;

verus! {

/// Configuration handed to the network-facing query layer: where the
/// backing store lives.  Opening the backend at that location, and
/// serving requests, are the embedding application's work.
pub struct ServerConfig {
    pub store_path: String,
}

impl ServerConfig {
    /// Remembers the location of the backing store.
    pub fn new(path: String) -> (r: ServerConfig)
        ensures
            r.store_path == path,
    {
        ServerConfig { store_path: path }
    }
}

} // verus!
