//! What the process is started with: its configuration, and the fixed names
//! and addresses of the things it talks to.

use vstd::prelude::*;

verus! {

/// The name of the configuration file, inside the user's configuration
/// directory.
pub const CONFIG_FILE: &'static str = "cdo.toml";

/// The query that fetches the rows of a page.
pub const TRIPS_QUERY: &'static str =
    "SELECT id,name,county,waterway,start,finish,date from trips where active = 1";

/// The address that the gateway listens on in TCP mode.
pub const LISTEN_ADDRESS: &'static str = "127.0.0.1:9000";

/// The configuration of the process, read once when it starts.
#[derive(Debug, Clone, PartialEq, Eq)]
pub struct Config {
    /// Whether requests come over TCP rather than over the default channel.
    pub tcp: bool,
    /// The connection string of the data store, handed on as it is.
    pub db_string: String,
}

/// How requests reach the process.
#[derive(Debug, Clone, Copy, PartialEq, Eq)]
pub enum Transport {
    /// Over the gateway's default channel.
    Pipe,
    /// Over a TCP listener bound to [`LISTEN_ADDRESS`].
    Tcp,
}

/// The transport that a value of the `tcp` option selects.
pub open spec fn selected_transport(tcp: bool) -> Transport {
    if tcp {
        Transport::Tcp
    } else {
        Transport::Pipe
    }
}

impl Config {
    /// The transport that this configuration selects.
    pub fn transport(&self) -> (t: Transport)
        ensures
            t == selected_transport(self.tcp),
    {
        if self.tcp {
            Transport::Tcp
        } else {
            Transport::Pipe
        }
    }
}

} // verus!
