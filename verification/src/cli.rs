//! The command-line settings of the streaming daemon.
use vstd::prelude::*;

verus! {

/// Host the daemon binds to unless told otherwise.
pub fn default_host() -> (host: String)
    ensures
        host@ == "127.0.0.1"@,
{
    "127.0.0.1".to_owned()
}

/// Port the daemon listens on unless told otherwise.
pub const DEFAULT_PORT: u16 = 7286;

/// Settings of the streaming daemon: the host and port to listen on, and the
/// token that the `/stream` and `/input` websocket clients must present.
pub struct Stream {
    pub host: String,
    pub port: u16,
    pub stream_token: String,
}

impl Stream {
    /// Settings with the given host, port and token.
    pub fn new(host: String, port: u16, stream_token: String) -> (s: Self)
        ensures
            s.host@ == host@,
            s.port == port,
            s.stream_token@ == stream_token@,
    {
        Stream { host, port, stream_token }
    }
}

} // verus!
