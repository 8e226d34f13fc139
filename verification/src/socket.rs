use vstd::prelude::*;
use crate::endpoint::{endpoint_chars, endpoint_text};

verus! {

/// Whether a socket is for receiving or for sending.
#[derive(Debug, Clone, Copy, PartialEq, Eq, Structural)]
pub enum SocketType {
    Recv,
    Send,
}

/// The description of a UDP socket: the address and port it binds to and
/// what it is for.
#[derive(Debug)]
pub struct CustomSocket {
    pub socket_addr: String,
    pub port: u16,
    pub s_type: SocketType,
}

impl CustomSocket {
    /// A socket description for `socket_addr:port`.
    pub fn new(socket_addr: String, port: u16, s_type: SocketType) -> (s: CustomSocket)
        ensures
            s.socket_addr == socket_addr,
            s.port == port,
            s.s_type == s_type,
    {
        CustomSocket { socket_addr, port, s_type }
    }

    /// The `addr:port` text the socket binds to.
    pub fn bind_text(&self) -> (res: String)
        ensures
            res@ == endpoint_chars(self.socket_addr@, self.port),
    {
        endpoint_text(self.socket_addr.as_str(), self.port)
    }

    /// Whether a receive may go ahead on this socket, given whether it has been
    /// bound: only a bound receiving socket may receive.
    pub fn recv_check(&self, bound: bool) -> (res: Result<(), String>)
        ensures
            self.s_type == SocketType::Send ==> (res matches Err(e) && e@ == "Uncorrect socket type"@),
            self.s_type == SocketType::Recv && !bound ==> (res matches Err(e) && e@
                == "Socket hasn't been created"@),
            self.s_type == SocketType::Recv && bound ==> res is Ok,
    {
        match self.s_type {
            SocketType::Recv => {
                if bound {
                    Ok(())
                } else {
                    Err("Socket hasn't been created".to_owned())
                }
            },
            SocketType::Send => Err("Uncorrect socket type".to_owned()),
        }
    }
}

} // verus!
