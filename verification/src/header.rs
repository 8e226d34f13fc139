use vstd::prelude::*;
use crate::command::{Command, MessageD};

verus! {

/// What a peer knows of itself: the id a server gave it, if any, and the
/// endpoints it receives on and sends from.
#[derive(Debug)]
pub struct ServerHeader {
    pub id: Option<u16>,
    pub recv: (String, u16),
    pub send: (String, u16),
}

impl ServerHeader {
    /// A header with no id, receiving on an empty address at port 0 and
    /// sending from an empty address at port 1.
    pub fn new() -> (h: ServerHeader)
        ensures
            h.id is None,
            h.recv.0@ == Seq::<char>::empty(),
            h.recv.1 == 0,
            h.send.0@ == Seq::<char>::empty(),
            h.send.1 == 1,
    {
        ServerHeader { recv: (String::new(), 0), send: (String::new(), 1), id: None }
    }

    /// The header of a peer that receives on `addr:recv_port` and sends from
    /// `addr:send_port`, before any server gave it an id.
    pub fn with_endpoints(addr: String, recv_port: u16, send_port: u16) -> (h: ServerHeader)
        ensures
            h.id is None,
            h.recv == (addr, recv_port),
            h.send == (addr, send_port),
    {
        let mut header = ServerHeader::new();
        header.send = (addr.clone(), send_port);
        header.recv = (addr, recv_port);
        header
    }

    /// The text message `message` from this peer, stamped with its id; `None`
    /// when no server has given it an id yet.
    pub fn message_command(&self, message: String) -> (res: Option<Command>)
        ensures
            match self.id {
                Some(id) => res == Some(Command::Message { id: id as i32, data: MessageD::Text { message } }),
                None => res is None,
            },
    {
        match self.id {
            Some(id) => Some(Command::Message { id: id as i32, data: MessageD::Text { message } }),
            None => None,
        }
    }
}

} // verus!
