use vstd::prelude::*;

verus! {

/// The payload of a message between peers.
#[derive(Debug, PartialEq, Eq)]
pub enum MessageD {
    Text { message: String },
}

/// The commands that peers send one another.
///
/// `Connect` announces a peer by the endpoint it receives on and the endpoint
/// it sends from, with a free-form `add_info` text (a server fills in the id it
/// gave the peer); `Disconnect` asks to leave; `Message` carries a payload for
/// the peer with the given id.
#[derive(Debug, PartialEq, Eq)]
pub enum Command {
    Connect { addr_recv: (String, u16), addr_send: (String, u16), password: bool, add_info: String },
    Disconnect { addr: String, port: u16 },
    Message { id: i32, data: MessageD },
}

impl Clone for MessageD {
    fn clone(&self) -> (res: Self)
        ensures
            res == *self,
    {
        match self {
            MessageD::Text { message } => MessageD::Text { message: message.clone() },
        }
    }
}

impl Clone for Command {
    fn clone(&self) -> (res: Self)
        ensures
            res == *self,
    {
        match self {
            Command::Connect { addr_recv, addr_send, password, add_info } => Command::Connect {
                addr_recv: (addr_recv.0.clone(), addr_recv.1),
                addr_send: (addr_send.0.clone(), addr_send.1),
                password: *password,
                add_info: add_info.clone(),
            },
            Command::Disconnect { addr, port } => Command::Disconnect { addr: addr.clone(), port: *port },
            Command::Message { id, data } => Command::Message { id: *id, data: data.clone() },
        }
    }
}

} // verus!
