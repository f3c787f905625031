//! The client side of privilege separation: where the privileged executor listens.
use vstd::prelude::*;
use crate::text::owned;

verus! {

/// The Unix socket of the privileged executor daemon.
pub const EXECD_SOCKET_PATH: &'static str = "/run/aegisnode/execd.sock";

/// Client that sends privileged requests to the executor daemon over its Unix socket.
pub struct ExecutorClient {
    socket_path: String,
}

impl ExecutorClient {
    pub closed spec fn socket(&self) -> Seq<char> {
        self.socket_path@
    }

    /// A client of the executor at `socket_path`, or at the default socket.
    pub fn new(socket_path: Option<&str>) -> (r: Self)
        ensures
            r.socket() == match socket_path {
                Some(p) => p@,
                None => EXECD_SOCKET_PATH@,
            },
    {
        let p = match socket_path {
            Some(p) => p,
            None => EXECD_SOCKET_PATH,
        };
        ExecutorClient { socket_path: owned(p) }
    }

    /// The socket the client connects to.
    pub fn socket_path(&self) -> (r: &str)
        ensures
            r@ == self.socket(),
    {
        self.socket_path.as_str()
    }
}

} // verus!
