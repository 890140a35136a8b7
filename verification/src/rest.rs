//! Addresses of the network's web interface. The calls themselves are made
//! by whoever holds a connection; this module says where they go.

use vstd::prelude::*;
use vstd::string::StringExecFns;

verus! {

/// The host that is asked where no other is given.
pub const DEFAULT_API: &'static str = "api.dev.minehut.com";

/// The path of the network's figures.
pub const SIMPLE_STATS_PATH: &'static str = "/network/simple_stats";

/// One call of the web interface: a host and a path on it.
#[derive(Debug, Clone, PartialEq, Eq)]
pub struct Call {
    api: String,
    path: String,
}

/// A call as the contracts speak of it: host and path.
pub struct CallView {
    pub api: Seq<char>,
    pub path: Seq<char>,
}

impl View for Call {
    type V = CallView;

    closed spec fn view(&self) -> CallView {
        CallView { api: self.api@, path: self.path@ }
    }
}

/// The address of a call: the path on the host, over HTTPS.
pub open spec fn url_of(call: CallView) -> Seq<char> {
    "https://"@ + call.api + call.path
}

/// The path that asks for a server by its name.
pub open spec fn server_path(server: Seq<char>) -> Seq<char> {
    "/server/"@ + server + "?byName=true"@
}

impl Call {
    /// A call of `path` on the host `api`, or on the default host where none
    /// is given.
    pub fn new(api: Option<String>, path: String) -> (call: Self)
        ensures
            call@.path == path@,
            call@.api == match api {
                Some(host) => host@,
                None => DEFAULT_API@,
            },
    {
        let api = match api {
            Some(host) => host,
            None => String::from_str(DEFAULT_API),
        };
        Call { api, path }
    }

    /// The address to get.
    pub fn url(&self) -> (url: String)
        ensures
            url@ == url_of(self@),
    {
        let mut url = String::from_str("https://");
        url.append(self.api.as_str());
        url.append(self.path.as_str());
        url
    }
}

/// The call that asks for the server named `server`.
pub fn get_server_by_name(api: Option<String>, server: &str) -> (call: Call)
    ensures
        call@.path == server_path(server@),
        call@.api == match api {
            Some(host) => host@,
            None => DEFAULT_API@,
        },
{
    let mut path = String::from_str("/server/");
    path.append(server);
    path.append("?byName=true");
    Call::new(api, path)
}

} // verus!
