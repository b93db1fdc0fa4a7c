//! Where the service listens.

use vstd::prelude::*;

verus! {

/// The host the service binds to where none is configured.
pub open spec fn default_host() -> Seq<char> {
    "0.0.0.0"@
}

/// The port the service listens on where none is configured.
pub open spec fn default_port() -> Seq<char> {
    "3000"@
}

/// The host and port to listen on.
pub struct Config {
    pub host: String,
    pub port: String,
}

impl Config {
    /// The configuration from the configured host and port (the values of
    /// `AUTODOK_HOST` and `AUTODOK_PORT`, where they are set), each falling back
    /// to its default.
    pub fn new(host: Option<String>, port: Option<String>) -> (res: Config)
        ensures
            res.host@ == match host {
                Some(h) => h@,
                None => default_host(),
            },
            res.port@ == match port {
                Some(p) => p@,
                None => default_port(),
            },
    {
        let host = match host {
            Some(h) => h,
            None => String::from_str("0.0.0.0"),
        };
        let port = match port {
            Some(p) => p,
            None => String::from_str("3000"),
        };
        Config { host, port }
    }

    /// The address to bind: `host:port`.
    pub fn addr(&self) -> (res: String)
        ensures
            res@ == self.host@ + seq![':'] + self.port@,
    {
        let res = self.host.clone().concat(":").concat(self.port.as_str());
        proof {
            reveal_strlit(":");
            assert(":"@ =~= seq![':']);
        }
        res
    }
}

} // verus!
